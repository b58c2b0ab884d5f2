//! What calls of the still-frame source do.

use crate::caps::{Caps, FieldModel};
use crate::clock_time::{frame_at, ClockTime, Fraction};
use crate::format::{converted, Format, FormattedValue};
use crate::image_freeze::{
    default_framerate, frame_defined, seek_bounds, seekable_to, ActivateAction, ChainAction,
    EventAction, FinishAction, FlowError, ImageFreeze, LoopAction, LoopEvent, LoopModel, Pad,
    PadMode, Reply, SeekAction, SeekOutcome, SeekRequest, SendAction, SinkEvent, SinkQuery,
    SrcEvent, SrcQuery, State,
};
use crate::laws::seeking::{lemma_seek_that_leads_nowhere, lemma_sought_segment_is_played};
use crate::laws::source::{
    about_to_begin, lemma_everything_starts_anew, lemma_new_element, lemma_segment_starts_anew,
    same_input, same_properties,
};
use crate::segment::Segment;
use vstd::prelude::*;

verus! {

/// Both states are at the same point of the stream.
pub open spec fn same_progress<B>(a: State<B>, b: State<B>) -> bool {
    &&& a.segment == b.segment
    &&& a.need_segment == b.need_segment
    &&& a.seqnum == b.seqnum
    &&& a.offset == b.offset
}

/// The state holds nothing, and is about to begin.
pub open spec fn holds_nothing<B>(state: State<B>) -> bool {
    &&& about_to_begin(state)
    &&& state.buffer is None
    &&& state.buffer_caps is None
    &&& state.current_caps is None
    &&& !state.direct_eos
}

/// A new element shows 30 frames a second without end, holds nothing, and waits.
pub proof fn lemma_new<B>(freeze: ImageFreeze<B>, framerate: Fraction)
    requires
        call_ensures(ImageFreeze::<B>::new, (), freeze),
        call_ensures(default_framerate, (), framerate),
    ensures
        framerate == (Fraction { numer: 30, denom: 1 }),
        freeze.state.framerate == framerate,
        freeze.state.duration is None,
        holds_nothing(freeze.state),
        freeze.state.flushing,
{
    lemma_new_element::<B>();
}

/// A new state is that of a new element. Starting its segment anew keeps the input; starting everything anew
/// forgets it, and waits.
pub proof fn lemma_states_start_anew<B>(new: State<B>, state: &mut State<B>, other: &mut State<B>)
    requires
        call_ensures(State::<B>::new, (), new),
        call_ensures(State::<B>::reset_segment, (state,), ()),
        call_ensures(State::<B>::reset_runtime, (other,), ()),
    ensures
        new == State::<B>::initial(),
        about_to_begin(*final(state)),
        same_properties(*final(state), *old(state)),
        same_input(*final(state), *old(state)),
        final(state).flushing == old(state).flushing,
        final(state).direct_eos == old(state).direct_eos,
        holds_nothing(*final(other)),
        final(other).flushing,
        same_properties(*final(other), *old(other)),
{
    lemma_segment_starts_anew(*old(state));
    lemma_everything_starts_anew(*old(other));
}

/// The framerate that is set is the one that is read, and the output is described anew if and only if it
/// denotes another ratio. The stream stays where it is.
pub proof fn lemma_set_framerate<B>(
    freeze: &mut ImageFreeze<B>,
    framerate: Fraction,
    changed: bool,
    read: Fraction,
)
    requires
        call_ensures(ImageFreeze::<B>::set_framerate, (freeze, framerate), changed),
        call_ensures(ImageFreeze::<B>::framerate, (final(freeze),), read),
    ensures
        read == framerate,
        changed <==> old(freeze).state.framerate.numer * framerate.denom != framerate.numer * old(
            freeze,
        ).state.framerate.denom,
        final(freeze).state.duration == old(freeze).state.duration,
        same_input(final(freeze).state, old(freeze).state),
        same_progress(final(freeze).state, old(freeze).state),
        final(freeze).state.flushing == old(freeze).state.flushing,
        final(freeze).state.direct_eos == old(freeze).state.direct_eos,
{
}

/// The duration that is set is the one that is read, the largest number meaning none, and the stream is
/// about to begin anew, with the frame it has.
pub proof fn lemma_set_duration<B>(freeze: &mut ImageFreeze<B>, raw: u64, read: u64)
    requires
        call_ensures(ImageFreeze::<B>::set_duration, (freeze, raw), ()),
        call_ensures(ImageFreeze::<B>::duration, (final(freeze),), read),
    ensures
        read == raw,
        final(freeze).state.duration is None <==> raw == 0xffff_ffff_ffff_ffff,
        final(freeze).state.duration matches Some(duration) ==> duration.nseconds == raw,
        about_to_begin(final(freeze).state),
        final(freeze).state.framerate == old(freeze).state.framerate,
        same_input(final(freeze).state, old(freeze).state),
        final(freeze).state.flushing == old(freeze).state.flushing,
        final(freeze).state.direct_eos == old(freeze).state.direct_eos,
{
    let timed = State {
        duration: if raw == 0xffff_ffff_ffff_ffff {
            None
        } else {
            Some(ClockTime { nseconds: raw })
        },
        ..old(freeze).state
    };
    lemma_segment_starts_anew(timed);
}

/// The first buffer after a description is kept, with that description. Every other is refused, and changes
/// nothing. Upstream is never asked for more: it gets the end of the stream, or an error if the task could
/// not be started.
pub proof fn lemma_sink_chain<B>(
    freeze: &mut ImageFreeze<B>,
    buffer: B,
    action: ChainAction,
    started: bool,
    answer: FlowError,
)
    requires
        call_ensures(ImageFreeze::<B>::sink_chain, (freeze, buffer), action),
        call_ensures(ChainAction::result, (&action, started), answer),
    ensures
        ({
            let before = old(freeze).state;
            let after = final(freeze).state;
            if !before.direct_eos && !before.flushing && before.buffer is None
                && before.current_caps is Some {
                &&& action == ChainAction::Start
                &&& after.buffer == Some(buffer)
                &&& after.buffer_caps matches Some(caps) && caps@ == before.current_caps->0@
                &&& after.current_caps == before.current_caps
                &&& same_properties(after, before)
                &&& same_progress(after, before)
                &&& after.flushing == before.flushing
                &&& after.direct_eos == before.direct_eos
                &&& started ==> answer == FlowError::Eos
                &&& !started ==> answer == FlowError::Error
            } else {
                &&& after == before
                &&& answer == (if before.direct_eos {
                    FlowError::Eos
                } else if before.flushing {
                    FlowError::Flushing
                } else if before.buffer is Some {
                    FlowError::Eos
                } else {
                    FlowError::NotNegotiated
                })
            }
        }),
{
}

/// Once a buffer was taken, the next one is refused, and the first one stays.
pub proof fn lemma_second_buffer_is_refused<B>(
    freeze: &mut ImageFreeze<B>,
    second: &mut ImageFreeze<B>,
    buffer: B,
    other: B,
    action: ChainAction,
)
    requires
        call_ensures(ImageFreeze::<B>::sink_chain, (freeze, buffer), ChainAction::Start),
        *second == *final(freeze),
        call_ensures(ImageFreeze::<B>::sink_chain, (second, other), action),
    ensures
        action == ChainAction::Refuse(FlowError::Eos),
        final(second).state.buffer == Some(buffer),
{
}

/// A description from upstream is kept and answered. The end of the input is kept back once there is a
/// frame, and passed on before. A segment only leaves its sequence number.
pub proof fn lemma_sink_event<B>(
    freeze: &mut ImageFreeze<B>,
    event: SinkEvent,
    action: EventAction,
)
    requires
        call_ensures(ImageFreeze::<B>::sink_event, (freeze, event), action),
    ensures
        ({
            let before = old(freeze).state;
            let after = final(freeze).state;
            &&& event matches SinkEvent::Caps(caps) ==> {
                &&& action == EventAction::Answer(true)
                &&& after == (State { current_caps: Some(caps), ..before })
            }
            &&& event matches SinkEvent::Eos(seqnum) ==> {
                &&& before.buffer is None ==> action == EventAction::Forward(false) && after
                    == before
                &&& before.buffer is Some ==> action == EventAction::Answer(true) && after == (
                State { seqnum: Some(seqnum), ..before })
            }
            &&& event matches SinkEvent::Segment(seqnum) ==> {
                &&& action == EventAction::Answer(true)
                &&& after == (State { seqnum: Some(seqnum), ..before })
            }
            &&& event is FlushStart ==> {
                &&& action == EventAction::Forward(false)
                &&& holds_nothing(after)
                &&& after.flushing
                &&& same_properties(after, before)
            }
            &&& event is FlushStop ==> {
                &&& action == EventAction::Forward(false)
                &&& after == (State { flushing: false, ..before })
            }
            &&& event matches SinkEvent::Other(sticky) ==> {
                &&& action == EventAction::Forward(sticky)
                &&& after == before
            }
        }),
{
    lemma_everything_starts_anew(old(freeze).state);
}

/// Of the events from downstream, four kinds are answered and change nothing. The start of flushing refuses
/// data, its end starts everything anew, and both are passed on, like all events that are not known. A
/// seek is begun.
pub proof fn lemma_src_event<B>(freeze: &mut ImageFreeze<B>, event: SrcEvent, action: EventAction)
    requires
        call_ensures(ImageFreeze::<B>::src_event, (freeze, event), action),
    ensures
        ({
            let before = old(freeze).state;
            let after = final(freeze).state;
            &&& event is Navigation || event is Qos || event is Latency || event is Step ==> action
                == EventAction::Answer(true) && after == before
            &&& event is Other ==> action == EventAction::Forward(false) && after == before
            &&& event is FlushStart ==> {
                &&& action == EventAction::Forward(false)
                &&& after == (State { flushing: true, ..before })
            }
            &&& event is FlushStop ==> {
                &&& action == EventAction::Forward(false)
                &&& holds_nothing(after)
                &&& !after.flushing
                &&& same_properties(after, before)
            }
            &&& event matches SrcEvent::Seek(request) ==> {
                let bounds = seek_bounds(request.start, request.stop, before.framerate);
                &&& request.rate.zero() || bounds is None ==> {
                    &&& action == EventAction::Seek(SeekAction::Refuse)
                    &&& after == before
                }
                &&& !request.rate.zero() ==> (bounds matches Some((start, stop)) ==> {
                    &&& action == EventAction::Seek(
                        SeekAction::Interrupt(request.flush, start, stop),
                    )
                    &&& after == (State { flushing: before.flushing || request.flush, ..before })
                })
            }
        }),
{
    lemma_everything_starts_anew(old(freeze).state);
}

/// A seek is begun by itself as it is as an event.
pub proof fn lemma_perform_seek<B>(
    freeze: &mut ImageFreeze<B>,
    request: SeekRequest,
    action: SeekAction,
    bounds: Option<(Option<ClockTime>, Option<ClockTime>)>,
)
    requires
        call_ensures(ImageFreeze::<B>::perform_seek, (freeze, request), action),
        call_ensures(
            ImageFreeze::<B>::seek_start_stop,
            (&*old(freeze), request.start, request.stop),
            bounds,
        ),
    ensures
        request.rate.zero() || bounds is None ==> action == SeekAction::Refuse && *final(freeze)
            == *old(freeze),
        !request.rate.zero() ==> (bounds matches Some((start, stop)) ==> {
            &&& action == SeekAction::Interrupt(request.flush, start, stop)
            &&& final(freeze).state == (State {
                flushing: old(freeze).state.flushing || request.flush,
                ..old(freeze).state
            })
        }),
        bounds == seek_bounds(request.start, request.stop, old(freeze).state.framerate),
{
}

/// A seek that led to a segment plays that segment, cut off at the duration if there is one. It stops
/// flushing if it flushed, announces the start of the segment where it was asked to, and starts the task if
/// there is a frame to show.
pub proof fn lemma_finish_seek<B>(
    freeze: &mut ImageFreeze<B>,
    request: SeekRequest,
    sought: Segment,
    outcome: SeekOutcome,
    started: bool,
    answer: bool,
)
    requires
        call_ensures(ImageFreeze::<B>::finish_seek, (freeze, request, Some(sought)), outcome),
        call_ensures(SeekOutcome::answer, (&outcome, started), answer),
    ensures
        ({
            let before = old(freeze).state;
            let after = final(freeze).state;
            &&& after.segment.rate == sought.rate
            &&& after.segment.applied_rate == sought.applied_rate
            &&& after.segment.flags == sought.flags
            &&& after.segment.base == sought.base
            &&& after.segment.offset == sought.offset
            &&& after.segment.start == sought.start
            &&& after.segment.time == sought.time
            &&& after.segment.position == sought.position
            &&& before.duration is None ==> after.segment == sought
            &&& (before.duration matches Some(duration) ==> {
                &&& after.segment.duration == Some(duration)
                &&& after.segment.stop is Some
                &&& after.segment.stop->0.nseconds <= duration.nseconds
                &&& (sought.stop matches Some(stop) ==> after.segment.stop->0.nseconds
                    <= stop.nseconds)
                &&& after.segment.stop == Some(duration) || after.segment.stop == sought.stop
            })
            &&& after.need_segment
            &&& after.seqnum == Some(request.seqnum)
            &&& !after.flushing
            &&& same_properties(after, before)
            &&& same_input(after, before)
            &&& after.offset == before.offset
            &&& after.direct_eos == before.direct_eos
            &&& outcome.flush_stop == request.flush
            &&& outcome.segment_start == (if request.segment {
                Some(sought.position)
            } else {
                None
            })
            &&& outcome.start_task == before.buffer is Some
            &&& answer == (before.buffer is Some ==> started)
        }),
{
    lemma_sought_segment_is_played(old(freeze).state, request.seqnum, sought);
}

/// A seek that led to no segment is answered in the negative, and keeps the segment.
pub proof fn lemma_finish_seek_without_a_segment<B>(
    freeze: &mut ImageFreeze<B>,
    request: SeekRequest,
    outcome: SeekOutcome,
    started: bool,
    answer: bool,
)
    requires
        old(freeze).state.wf(),
        call_ensures(ImageFreeze::<B>::finish_seek, (freeze, request, None), outcome),
        call_ensures(SeekOutcome::answer, (&outcome, started), answer),
    ensures
        !answer,
        outcome.flush_stop == request.flush,
        outcome.segment_start is None,
        !outcome.start_task,
        final(freeze).state.segment == old(freeze).state.segment,
        final(freeze).state.need_segment,
        final(freeze).state.seqnum == Some(request.seqnum),
        !final(freeze).state.flushing,
        same_properties(final(freeze).state, old(freeze).state),
        same_input(final(freeze).state, old(freeze).state),
{
    lemma_seek_that_leads_nowhere(old(freeze).state, request.seqnum);
}

/// The end of the stream from outside is kept in mind and passed on. Other events change nothing.
pub proof fn lemma_send_event<B>(freeze: &mut ImageFreeze<B>, eos: bool, action: SendAction)
    requires
        call_ensures(ImageFreeze::<B>::send_event, (freeze, eos), action),
    ensures
        eos ==> {
            &&& action == SendAction::PauseAndPush
            &&& final(freeze).state == (State { direct_eos: true, ..old(freeze).state })
        },
        !eos ==> {
            &&& action == SendAction::Default
            &&& final(freeze).state == old(freeze).state
        },
{
}

/// Only the push mode is supported. Switched on, everything starts anew and data is taken. Switched off,
/// data is refused at once, and everything starts anew when the task has stopped.
pub proof fn lemma_src_activatemode<B>(
    freeze: &mut ImageFreeze<B>,
    mode: PadMode,
    active: bool,
    action: ActivateAction,
)
    requires
        call_ensures(ImageFreeze::<B>::src_activatemode, (freeze, mode, active), action),
    ensures
        mode != PadMode::Push ==> {
            &&& action == ActivateAction::Refuse
            &&& final(freeze).state == old(freeze).state
        },
        mode == PadMode::Push && active ==> {
            &&& action == ActivateAction::Done
            &&& holds_nothing(final(freeze).state)
            &&& !final(freeze).state.flushing
            &&& same_properties(final(freeze).state, old(freeze).state)
        },
        mode == PadMode::Push && !active ==> {
            &&& action == ActivateAction::StopTask
            &&& final(freeze).state == (State { flushing: true, ..old(freeze).state })
        },
{
    lemma_everything_starts_anew(old(freeze).state);
}

/// Once the task has stopped, everything starts anew. If it could not be stopped, nothing changes.
pub proof fn lemma_src_deactivated<B>(freeze: &mut ImageFreeze<B>, stopped: bool)
    requires
        call_ensures(ImageFreeze::<B>::src_deactivated, (freeze, stopped), ()),
    ensures
        stopped ==> {
            &&& holds_nothing(final(freeze).state)
            &&& final(freeze).state.flushing
            &&& same_properties(final(freeze).state, old(freeze).state)
        },
        !stopped ==> final(freeze).state == old(freeze).state,
{
    lemma_everything_starts_anew(old(freeze).state);
}

/// A step of the source task takes the action of its state and event, and moves on to the state after it.
pub proof fn lemma_src_loop_inner<B>(
    freeze: &mut ImageFreeze<B>,
    event: LoopEvent,
    action: LoopAction,
    end: Option<Result<(), FlowError>>,
)
    requires
        call_ensures(ImageFreeze::<B>::src_loop_inner, (freeze, event), action),
        call_ensures(LoopAction::round_end, (&action,), end),
    ensures
        action@ == old(freeze).state.loop_action(event),
        final(freeze).state == old(freeze).state.after_loop(event),
        end == match action {
            LoopAction::Finish(result) => Some(result),
            LoopAction::Pause => Some(Ok(())),
            LoopAction::RejectCaps => Some(Err(FlowError::NotNegotiated)),
            _ => None,
        },
{
}

/// What actions hold.
pub proof fn lemma_what_actions_hold(action: LoopAction)
    ensures
        match action {
            LoopAction::Finish(result) => action@ == LoopModel::Finish(result),
            LoopAction::Pause => action@ is Pause,
            LoopAction::CheckReconfigure => action@ is CheckReconfigure,
            LoopAction::PushCaps(caps) => action@ == LoopModel::PushCaps(caps@),
            LoopAction::RejectCaps => action@ is RejectCaps,
            LoopAction::PushSegment(segment, seqnum) => action@ == LoopModel::PushSegment(
                segment,
                seqnum,
            ),
            LoopAction::PushBuffer(timing, last) => action@ == LoopModel::PushBuffer(timing, last),
        },
{
}

/// After a round, the task goes on if it went well, and ends by its error otherwise: silently while
/// flushing, with the end of the segment or of the stream, or as a failure.
pub proof fn lemma_src_loop<B>(
    freeze: ImageFreeze<B>,
    result: Result<(), FlowError>,
    next: Option<FinishAction>,
    error: FlowError,
    action: FinishAction,
)
    requires
        call_ensures(ImageFreeze::<B>::src_loop, (&freeze, result), next),
        call_ensures(ImageFreeze::<B>::finish_src_task, (&freeze, error), action),
    ensures
        next is None <==> result is Ok,
        result == Err::<(), FlowError>(error) ==> next == Some(action),
        ({
            let segment = freeze.state.segment;
            &&& error == FlowError::Flushing ==> action is Pause
            &&& error == FlowError::Eos && segment.announces_segment_done() ==> action
                == FinishAction::SegmentDone(
                if segment.rate.forward() {
                    segment.stop
                } else {
                    segment.start
                },
            )
            &&& error == FlowError::Eos && !segment.announces_segment_done() ==> action
                == FinishAction::Eos(freeze.state.seqnum)
            &&& error != FlowError::Flushing && error != FlowError::Eos ==> action is Fail
        }),
{
}

/// Upstream, a pad accepts what the peer downstream does, at any framerate; downstream, what the peer
/// upstream does, at the framerate of the stream. Nothing else of it changes.
pub proof fn lemma_query_caps<B>(freeze: ImageFreeze<B>, peer: Caps, src: Caps, sink: Caps, i: int)
    requires
        call_ensures(ImageFreeze::<B>::query_caps, (&freeze, Pad::Src, peer), src),
        call_ensures(ImageFreeze::<B>::query_caps, (&freeze, Pad::Sink, peer), sink),
        0 <= i < peer@.structures.len(),
    ensures
        src@.any == peer@.any,
        sink@.any == peer@.any,
        src@.structures.len() == peer@.structures.len(),
        sink@.structures.len() == peer@.structures.len(),
        ({
            let before = peer@.structures[i];
            let down = src@.structures[i];
            let up = sink@.structures[i];
            &&& down.fields == before.fields.insert(
                "framerate"@,
                FieldModel::Fraction(freeze.state.framerate),
            )
            &&& up.fields == before.fields.insert(
                "framerate"@,
                FieldModel::FractionRange(
                    Fraction { numer: 0, denom: 1 },
                    Fraction { numer: 0x7fff_ffff, denom: 1 },
                ),
            )
            &&& down.name == before.name && up.name == before.name
            &&& down.features == before.features && up.features == before.features
        }),
{
    assert(sink@.structures[i].fields =~= peer@.structures[i].fields.insert(
        "framerate"@,
        FieldModel::FractionRange(
            Fraction { numer: 0, denom: 1 },
            Fraction { numer: 0x7fff_ffff, denom: 1 },
        ),
    ));
}

/// The filter for the peer lets every structure have any framerate, and there is one if there was one.
pub proof fn lemma_peer_filter<B>(
    filter: Option<&Caps>,
    peer: Option<Caps>,
    caps: &mut Caps,
    input: Caps,
    framerate: Fraction,
    output: Caps,
)
    requires
        call_ensures(ImageFreeze::<B>::peer_filter, (filter,), peer),
        call_ensures(ImageFreeze::<B>::remove_framerate, (caps,), ()),
        call_ensures(ImageFreeze::<B>::output_caps, (&input, framerate), output),
    ensures
        peer is Some <==> filter is Some,
        filter matches Some(before) ==> before@ == old(caps)@ ==> peer->0@ == final(caps)@,
        final(caps)@.any == old(caps)@.any,
        final(caps)@.structures.len() == old(caps)@.structures.len(),
        forall|i: int|
            0 <= i < old(caps)@.structures.len() ==> {
                let after = #[trigger] final(caps)@.structures[i];
                &&& after.fields["framerate"@] == FieldModel::FractionRange(
                    Fraction { numer: 0, denom: 1 },
                    Fraction { numer: 0x7fff_ffff, denom: 1 },
                )
                &&& after.fields.remove("framerate"@) == old(
                    caps,
                )@.structures[i].fields.remove("framerate"@)
            },
        output@.any == input@.any,
        output@.structures.len() == input@.structures.len(),
        forall|i: int|
            0 <= i < input@.structures.len() ==> (
            #[trigger] output@.structures[i]).fields == input@.structures[i].fields.insert(
                "framerate"@,
                FieldModel::Fraction(framerate),
            ),
{
    assert forall|i: int| 0 <= i < old(caps)@.structures.len() implies (
    #[trigger] final(caps)@.structures[i]).fields.remove("framerate"@) == old(
        caps,
    )@.structures[i].fields.remove("framerate"@) by {
        assert(final(caps)@.structures[i].fields.remove("framerate"@) =~= old(
            caps,
        )@.structures[i].fields.remove("framerate"@));
    }
}

/// Questions from downstream are answered from the state, and conversions at its framerate.
pub proof fn lemma_src_query<B>(
    freeze: ImageFreeze<B>,
    source: FormattedValue,
    unit: Format,
    converted_value: Option<FormattedValue>,
    conversion: Reply,
    position: Reply,
    frame: Reply,
    duration: Reply,
    frames: Reply,
    seeking: Reply,
    seeking_frames: Reply,
)
    requires
        call_ensures(
            ImageFreeze::<B>::convert_value,
            (&freeze, source, unit),
            converted_value,
        ),
        call_ensures(
            ImageFreeze::<B>::src_query,
            (&freeze, SrcQuery::Convert(source, unit)),
            conversion,
        ),
        call_ensures(
            ImageFreeze::<B>::src_query,
            (&freeze, SrcQuery::Position(Format::Time)),
            position,
        ),
        call_ensures(
            ImageFreeze::<B>::src_query,
            (&freeze, SrcQuery::Position(Format::Default)),
            frame,
        ),
        call_ensures(
            ImageFreeze::<B>::src_query,
            (&freeze, SrcQuery::Duration(Format::Time)),
            duration,
        ),
        call_ensures(
            ImageFreeze::<B>::src_query,
            (&freeze, SrcQuery::Duration(Format::Default)),
            frames,
        ),
        call_ensures(
            ImageFreeze::<B>::src_query,
            (&freeze, SrcQuery::Seeking(Format::Time)),
            seeking,
        ),
        call_ensures(
            ImageFreeze::<B>::src_query,
            (&freeze, SrcQuery::Seeking(Format::Default)),
            seeking_frames,
        ),
    ensures
        converted_value == converted(source, unit, freeze.state.framerate),
        conversion == (match converted_value {
            Some(value) => Reply::Convert(source, value),
            None => Reply::Refuse,
        }),
        position == Reply::PositionTime(freeze.state.segment.position),
        frame == Reply::PositionFrames(freeze.state.offset),
        duration == Reply::DurationTime(freeze.state.duration),
        seeking == Reply::SeekingTime(freeze.state.duration),
        freeze.state.duration is None ==> frames == Reply::DurationFrames(None) && seeking_frames
            == Reply::SeekingFrames(None),
        freeze.state.duration matches Some(end) ==> {
            let count = Some(frame_at(end, freeze.state.framerate));
            frames == Reply::DurationFrames(count) && seeking_frames == Reply::SeekingFrames(count)
        },
{
}

/// The other questions, from both sides.
pub proof fn lemma_other_queries<B>(
    freeze: ImageFreeze<B>,
    unit: Format,
    latency: Reply,
    caps: Reply,
    other: Reply,
    position: Reply,
    duration: Reply,
    seeking: Reply,
    sink_caps: Reply,
    sink_other: Reply,
)
    requires
        unit != Format::Time,
        unit != Format::Default,
        call_ensures(ImageFreeze::<B>::src_query, (&freeze, SrcQuery::Latency), latency),
        call_ensures(ImageFreeze::<B>::src_query, (&freeze, SrcQuery::Caps), caps),
        call_ensures(ImageFreeze::<B>::src_query, (&freeze, SrcQuery::Other), other),
        call_ensures(ImageFreeze::<B>::src_query, (&freeze, SrcQuery::Position(unit)), position),
        call_ensures(ImageFreeze::<B>::src_query, (&freeze, SrcQuery::Duration(unit)), duration),
        call_ensures(ImageFreeze::<B>::src_query, (&freeze, SrcQuery::Seeking(unit)), seeking),
        call_ensures(ImageFreeze::<B>::sink_query, (&freeze, SinkQuery::Caps), sink_caps),
        call_ensures(ImageFreeze::<B>::sink_query, (&freeze, SinkQuery::Other), sink_other),
    ensures
        latency == Reply::Latency(false, ClockTime { nseconds: 0 }, None),
        caps is Caps,
        other is Default,
        position is Refuse,
        duration is Refuse,
        seeking is Refuse,
        sink_caps is Caps,
        sink_other is Default,
{
}

/// What can be asked before a call tells whether it may be made.
pub proof fn lemma_what_can_be_asked<B>(
    freeze: ImageFreeze<B>,
    event: LoopEvent,
    can_continue: bool,
    query: SrcQuery,
    can_answer: bool,
    segment: Segment,
    can_seek: bool,
)
    requires
        freeze.state.wf(),
        call_ensures(ImageFreeze::<B>::can_continue, (&freeze, event), can_continue),
        call_ensures(ImageFreeze::<B>::can_answer, (&freeze, query), can_answer),
        call_ensures(ImageFreeze::<B>::can_seek_to, (&freeze, &segment), can_seek),
    ensures
        can_continue <==> (freeze.state.frame_due(event) ==> frame_defined(
            freeze.state.segment,
            freeze.state.framerate,
            freeze.state.offset,
        )),
        can_answer <==> freeze.state.answerable(query),
        can_seek <==> seekable_to(freeze.state.segment, segment),
        can_answer ==> call_requires(ImageFreeze::<B>::src_query, (&freeze, query)),
{
}

} // verus!
