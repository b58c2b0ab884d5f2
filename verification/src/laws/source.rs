//! The still-frame source: what it remembers, when it takes a frame, and what its task shows.

use crate::caps::{CapsModel, FieldModel};
use crate::clock_time::{frame_at, time_of, ClockTime, Fraction};
use crate::image_freeze::{
    any_framerate, described_at, frame_defined, initial_framerate, optional_time, raw_of,
    ChainAction, FinishAction, FlowError, LoopEvent, LoopModel, State,
};
use crate::laws::clipping::lemma_new_segment;
use crate::segment::Segment;
use vstd::prelude::*;

verus! {

/// Both states have the same properties.
pub open spec fn same_properties<B>(a: State<B>, b: State<B>) -> bool {
    a.framerate == b.framerate && a.duration == b.duration
}

/// Both states hold the same frame and the same descriptions.
pub open spec fn same_input<B>(a: State<B>, b: State<B>) -> bool {
    a.buffer == b.buffer && a.buffer_caps == b.buffer_caps && a.current_caps == b.current_caps
}

/// Both segments are the same but for the position.
pub open spec fn same_but_position(a: Segment, b: Segment) -> bool {
    &&& a.flags == b.flags
    &&& a.rate == b.rate
    &&& a.applied_rate == b.applied_rate
    &&& a.base == b.base
    &&& a.offset == b.offset
    &&& a.start == b.start
    &&& a.stop == b.stop
    &&& a.time == b.time
    &&& a.duration == b.duration
}

/// The state is about to begin: from zero up to the duration, at normal speed, with the first frame.
pub open spec fn about_to_begin<B>(state: State<B>) -> bool {
    let zero = Some(ClockTime { nseconds: 0 });
    &&& state.segment.start == zero
    &&& state.segment.stop == state.duration
    &&& state.segment.duration == state.duration
    &&& state.segment.position == zero
    &&& state.segment.time == zero
    &&& state.segment.base == zero
    &&& state.segment.offset == zero
    &&& state.segment.flags == 0
    &&& state.segment.rate.bits == 0x3ff0_0000_0000_0000
    &&& state.segment.applied_rate.bits == 0x3ff0_0000_0000_0000
    &&& state.need_segment
    &&& state.offset == 0
    &&& state.seqnum is None
}

/// A new element shows 30 frames a second without end, holds nothing, and waits.
pub proof fn lemma_new_element<B>()
    ensures
        ({
            let state = State::<B>::initial();
            &&& initial_framerate() == (Fraction { numer: 30, denom: 1 })
            &&& state.framerate == (Fraction { numer: 30, denom: 1 })
            &&& state.duration is None
            &&& state.buffer is None
            &&& state.buffer_caps is None
            &&& state.current_caps is None
            &&& about_to_begin(state)
            &&& state.flushing
            &&& !state.direct_eos
        }),
{
    lemma_new_segment();
}

/// Starting the segment anew forgets where the stream was, and nothing else.
pub proof fn lemma_segment_starts_anew<B>(state: State<B>)
    ensures
        ({
            let reset = state.with_reset_segment();
            &&& about_to_begin(reset)
            &&& same_properties(reset, state)
            &&& same_input(reset, state)
            &&& reset.flushing == state.flushing
            &&& reset.direct_eos == state.direct_eos
        }),
{
    lemma_new_segment();
}

/// Starting anew forgets the input, too, and an end from outside, and waits.
pub proof fn lemma_everything_starts_anew<B>(state: State<B>)
    ensures
        ({
            let reset = state.with_reset_runtime();
            &&& about_to_begin(reset)
            &&& same_properties(reset, state)
            &&& reset.buffer is None
            &&& reset.buffer_caps is None
            &&& reset.current_caps is None
            &&& reset.flushing
            &&& !reset.direct_eos
        }),
{
    lemma_new_segment();
}

/// A raw duration is a time, but for the largest number, which is none.
pub proof fn lemma_raw_duration(raw: u64)
    ensures
        optional_time(raw) is None <==> raw == 0xffff_ffff_ffff_ffff,
        optional_time(raw) matches Some(time) ==> time.nseconds == raw,
        raw_of(Some(ClockTime { nseconds: raw })) == raw,
        raw_of(None) == 0xffff_ffff_ffff_ffff,
{
}

/// A buffer is taken if and only if there is none yet, a description came before it, and nothing is in its
/// way. What is in its way decides the answer: an end from outside before flushing, flushing before a
/// frame that is there already, and that before a missing description.
pub proof fn lemma_when_a_buffer_is_taken<B>(state: State<B>)
    ensures
        state.chain_action() == ChainAction::Start <==> {
            &&& !state.direct_eos
            &&& !state.flushing
            &&& state.buffer is None
            &&& state.current_caps is Some
        },
        state.chain_action() == ChainAction::Refuse(FlowError::Flushing) <==> state.flushing
            && !state.direct_eos,
        state.chain_action() == ChainAction::Refuse(FlowError::Eos) <==> state.direct_eos || (
        !state.flushing && state.buffer is Some),
        state.chain_action() == ChainAction::Refuse(FlowError::NotNegotiated) <==> {
            &&& !state.direct_eos
            &&& !state.flushing
            &&& state.buffer is None
            &&& state.current_caps is None
        },
{
}

/// A round begins with a still frame, and only if nothing flushes and the stream was not ended.
pub proof fn lemma_how_a_round_begins<B>(state: State<B>)
    ensures
        ({
            let action = state.loop_action(LoopEvent::Entered);
            &&& action is CheckReconfigure <==> !state.flushing && !state.direct_eos
                && state.buffer is Some
            &&& action is Pause <==> !state.flushing && state.direct_eos
            &&& action == LoopModel::Finish(Err(FlowError::Flushing)) <==> state.flushing
            &&& action == LoopModel::Finish(Err(FlowError::Error)) <==> !state.flushing
                && !state.direct_eos && state.buffer is None
            &&& state.after_loop(LoopEvent::Entered) == state
        }),
{
}

/// A description that is due is that of the still frame, at the framerate of the stream. Without one, or
/// if it is refused, the round ends as not negotiated. The state stays.
pub proof fn lemma_description_of_the_round<B>(state: State<B>)
    ensures
        ({
            let action = state.loop_action(LoopEvent::Reconfigure(true));
            let refused = state.loop_action(LoopEvent::CapsPushed(false));
            &&& match state.buffer_caps {
                Some(caps) => action matches LoopModel::PushCaps(output) && {
                    &&& output.any == caps@.any
                    &&& output.structures.len() == caps@.structures.len()
                    &&& forall|i: int|
                        0 <= i < output.structures.len() ==> {
                            let structure = #[trigger] output.structures[i];
                            &&& structure.fields.dom().contains("framerate"@)
                            &&& structure.fields["framerate"@] == FieldModel::Fraction(
                                state.framerate,
                            )
                            &&& structure.name == caps@.structures[i].name
                            &&& structure.features == caps@.structures[i].features
                        }
                },
                None => action == LoopModel::Finish(Err(FlowError::NotNegotiated)),
            }
            &&& refused is RejectCaps
            &&& refused.ends_round() == Some(Err::<(), FlowError>(FlowError::NotNegotiated))
            &&& state.after_loop(LoopEvent::Reconfigure(true)) == state
            &&& state.after_loop(LoopEvent::CapsPushed(false)) == state
        }),
{
}

/// Which actions end a round, and how.
pub proof fn lemma_ends_of_rounds(
    result: Result<(), FlowError>,
    caps: CapsModel,
    segment: Segment,
    seqnum: Option<u32>,
)
    ensures
        LoopModel::Finish(result).ends_round() == Some(result),
        LoopModel::Pause.ends_round() == Some(Ok::<(), FlowError>(())),
        LoopModel::RejectCaps.ends_round() == Some(Err::<(), FlowError>(FlowError::NotNegotiated)),
        LoopModel::CheckReconfigure.ends_round() is None,
        LoopModel::PushCaps(caps).ends_round() is None,
        LoopModel::PushSegment(segment, seqnum).ends_round() is None,
{
}

/// Once the output is described, a segment that is due is announced as it is. The next frame is then the
/// one shown at its start, or, unless it is played forward, at its stop; where that is missing, the very
/// first.
pub proof fn lemma_announcing_the_segment<B>(state: State<B>, event: LoopEvent)
    requires
        state.need_segment,
        event == LoopEvent::Reconfigure(false) || event == LoopEvent::CapsPushed(true),
    ensures
        ({
            let after = state.after_loop(event);
            let edge = if state.segment.rate.forward() {
                state.segment.start
            } else {
                state.segment.stop
            };
            &&& state.loop_action(event) == LoopModel::PushSegment(state.segment, state.seqnum)
            &&& after == state.after_segment()
            &&& after.segment == state.segment
            &&& !after.need_segment
            &&& after.offset == match edge {
                Some(time) => frame_at(time, state.framerate),
                None => 0,
            }
            &&& same_properties(after, state)
            &&& same_input(after, state)
            &&& after.seqnum == state.seqnum
            &&& after.flushing == state.flushing
            &&& after.direct_eos == state.direct_eos
        }),
{
}

/// A frame is due once the output is described and the segment announced. The first after the segment is
/// marked as following a jump, and no other.
pub proof fn lemma_when_a_frame_is_due<B>(state: State<B>)
    ensures
        !state.need_segment ==> {
            &&& state.frame_due(LoopEvent::Reconfigure(false))
            &&& state.frame_due(LoopEvent::CapsPushed(true))
            &&& state.loop_action(LoopEvent::Reconfigure(false)) == state.frame_action(false)
            &&& state.loop_action(LoopEvent::CapsPushed(true)) == state.frame_action(false)
            &&& state.after_loop(LoopEvent::Reconfigure(false)) == state.after_frame()
            &&& state.after_loop(LoopEvent::CapsPushed(true)) == state.after_frame()
        },
        state.need_segment ==> {
            &&& !state.frame_due(LoopEvent::Reconfigure(false))
            &&& !state.frame_due(LoopEvent::CapsPushed(true))
        },
        state.frame_due(LoopEvent::SegmentPushed),
        state.loop_action(LoopEvent::SegmentPushed) == state.frame_action(true),
        state.after_loop(LoopEvent::SegmentPushed) == state.after_frame(),
        !state.frame_due(LoopEvent::Entered),
        !state.frame_due(LoopEvent::Reconfigure(true)),
        !state.frame_due(LoopEvent::CapsPushed(false)),
{
}

/// Once a buffer is pushed, the round ends: with the error of downstream, if there was one, with the end of
/// the stream after the last buffer, and well otherwise.
pub proof fn lemma_after_the_buffer<B>(state: State<B>, error: FlowError, last: bool)
    ensures
        state.loop_action(LoopEvent::BufferPushed(Err(error), last)) == LoopModel::Finish(
            Err(error),
        ),
        state.loop_action(LoopEvent::BufferPushed(Ok(()), true)) == LoopModel::Finish(
            Err(FlowError::Eos),
        ),
        state.loop_action(LoopEvent::BufferPushed(Ok(()), false)) == LoopModel::Finish(Ok(())),
        state.after_loop(LoopEvent::BufferPushed(Ok(()), last)) == state,
        state.after_loop(LoopEvent::BufferPushed(Err(error), last)) == state,
        !state.frame_due(LoopEvent::BufferPushed(Ok(()), last)),
        !state.frame_due(LoopEvent::BufferPushed(Err(error), last)),
{
}

/// The stream ends with the frame from `from` to `to`: forward, it starts past the stop; in reverse, it is
/// the very first or ends before the start.
pub open spec fn is_last<B>(state: State<B>, from: ClockTime, to: ClockTime) -> bool {
    ||| state.segment.rate.forward() && state.segment.stop is Some && from.nseconds
        > state.segment.stop->0.nseconds
    ||| state.segment.rate.reverse() && state.offset == 0
    ||| state.segment.rate.reverse() && state.segment.start is Some && to.nseconds
        < state.segment.start->0.nseconds
}

/// A frame that overlaps the segment is pushed, from the later start to the earlier stop, under its own
/// number. One that does not is passed over. Either way it ends the stream or not.
pub proof fn lemma_frame_is_pushed_as_far_as_it_overlaps<B>(
    state: State<B>,
    discont: bool,
    start: ClockTime,
    from: ClockTime,
    to: ClockTime,
)
    requires
        state.segment.start == Some(start),
        state.segment.stop matches Some(stop) ==> start.nseconds < stop.nseconds,
        state.offset < u64::MAX,
        from == time_of(state.offset, state.framerate),
        to == time_of((state.offset + 1) as u64, state.framerate),
        from.defined(),
        to.defined(),
        from.nseconds < to.nseconds,
    ensures
        ({
            let overlap = to.nseconds > start.nseconds && (state.segment.stop matches Some(stop)
                ==> from.nseconds < stop.nseconds);
            match state.frame_action(discont) {
                LoopModel::PushBuffer(frame, last) => {
                    let end = frame.pts.nseconds + frame.duration.nseconds;
                    &&& overlap
                    &&& frame.pts.nseconds >= from.nseconds
                    &&& frame.pts.nseconds >= start.nseconds
                    &&& frame.pts == from || frame.pts == start
                    &&& end <= to.nseconds
                    &&& (state.segment.stop matches Some(stop) ==> end <= stop.nseconds)
                    &&& end == to.nseconds || (state.segment.stop matches Some(stop) && end
                        == stop.nseconds)
                    &&& frame.duration.nseconds > 0
                    &&& frame.offset == state.offset
                    &&& frame.offset_end == state.offset + 1
                    &&& frame.discont == discont
                    &&& last == is_last(state, from, to)
                },
                LoopModel::Finish(result) => {
                    &&& !overlap
                    &&& result == (if is_last(state, from, to) {
                        Err::<(), FlowError>(FlowError::Eos)
                    } else {
                        Ok(())
                    })
                },
                _ => false,
            }
        }),
{
}

/// Whatever the frame, what is pushed of it bears its number, and the flag and the end are as they should
/// be; what is not pushed ends the round.
pub proof fn lemma_frame_is_pushed_or_passed_over<B>(state: State<B>, discont: bool)
    ensures
        ({
            let from = time_of(state.offset, state.framerate);
            let to = time_of(
                if state.offset < u64::MAX {
                    (state.offset + 1) as u64
                } else {
                    u64::MAX
                },
                state.framerate,
            );
            match state.frame_action(discont) {
                LoopModel::PushBuffer(frame, last) => {
                    &&& state.segment.clipped(from, to) matches Some((a, b)) && frame.pts == a && (
                    a.nseconds <= b.nseconds ==> frame.pts.nseconds + frame.duration.nseconds
                        == b.nseconds)
                    &&& frame.offset == state.offset
                    &&& frame.offset_end == (if state.offset < u64::MAX {
                        state.offset + 1
                    } else {
                        u64::MAX as int
                    })
                    &&& frame.discont == discont
                    &&& last == is_last(state, from, to)
                },
                LoopModel::Finish(result) => {
                    &&& state.segment.clipped(from, to) is None
                    &&& result == (if is_last(state, from, to) {
                        Err::<(), FlowError>(FlowError::Eos)
                    } else {
                        Ok(())
                    })
                },
                _ => false,
            }
        }),
{
}

/// Showing a frame moves the position to its end, or, unless it is played forward, to its beginning, and
/// moves on to the next frame or the one before. Where nothing is shown the position stays. Nothing else
/// changes.
pub proof fn lemma_frame_moves_the_position<B>(state: State<B>, discont: bool)
    requires
        state.segment.ordered(),
        time_of(state.offset, state.framerate).nseconds <= time_of(
            if state.offset < u64::MAX {
                (state.offset + 1) as u64
            } else {
                u64::MAX
            },
            state.framerate,
        ).nseconds,
        frame_defined(state.segment, state.framerate, state.offset),
    ensures
        ({
            let after = state.after_frame();
            &&& match state.frame_action(discont) {
                LoopModel::PushBuffer(frame, _) => after.segment.position matches Some(position)
                    && position.nseconds == frame.pts.nseconds + (
                if state.segment.rate.forward() {
                    frame.duration.nseconds as int
                } else {
                    0
                }),
                _ => after.segment.position == state.segment.position,
            }
            &&& after.offset == (if state.segment.rate.forward() {
                if state.offset < u64::MAX {
                    state.offset + 1
                } else {
                    state.offset as int
                }
            } else {
                if state.offset > 0 {
                    state.offset - 1
                } else {
                    0
                }
            })
            &&& same_but_position(after.segment, state.segment)
            &&& same_properties(after, state)
            &&& same_input(after, state)
            &&& after.need_segment == state.need_segment
            &&& after.seqnum == state.seqnum
            &&& after.flushing == state.flushing
            &&& after.direct_eos == state.direct_eos
        }),
{
}

/// As long as both ends of a frame are times, what is shown of it in a segment with a start is shown from a
/// time to a time.
pub proof fn lemma_frames_with_times_can_be_shown(
    segment: Segment,
    framerate: Fraction,
    offset: u64,
)
    requires
        segment.ordered(),
        segment.start is Some,
        offset < u64::MAX,
        time_of(offset, framerate).defined(),
        time_of((offset + 1) as u64, framerate).defined(),
    ensures
        frame_defined(segment, framerate, offset),
{
}

/// What is shown of a frame is shown from a time to a time unless one of the two is the reserved value.
pub proof fn lemma_what_can_be_shown(segment: Segment, framerate: Fraction, offset: u64)
    ensures
        ({
            let next = if offset < u64::MAX {
                (offset + 1) as u64
            } else {
                u64::MAX
            };
            !frame_defined(segment, framerate, offset) <==> (segment.clipped(
                time_of(offset, framerate),
                time_of(next, framerate),
            ) matches Some((start, stop)) && (start.nseconds == 0xffff_ffff_ffff_ffff
                || stop.nseconds == 0xffff_ffff_ffff_ffff))
        }),
{
}

/// What a state always keeps to: a framerate above zero, bounds that are times and in order, a segment of the
/// duration that does not pass it, and a description for the still frame.
pub proof fn lemma_what_a_state_keeps_to<B>(state: State<B>)
    requires
        state.wf(),
    ensures
        state.framerate.numer > 0,
        state.framerate.denom > 0,
        state.segment.duration == state.duration,
        state.duration matches Some(duration) ==> {
            &&& duration.nseconds != 0xffff_ffff_ffff_ffff
            &&& state.segment.stop is Some
            &&& state.segment.stop->0.nseconds <= duration.nseconds
        },
        state.segment.start matches Some(start) ==> state.segment.stop matches Some(stop)
            ==> start.nseconds <= stop.nseconds,
        state.buffer is Some <==> state.buffer_caps is Some,
        state.buffer_caps matches Some(caps) ==> caps.wf(),
        state.current_caps matches Some(caps) ==> caps.wf(),
{
}

/// The task ends silently while flushing. At the end of the stream it announces the end, under the
/// sequence number, or the end of the segment, where that is asked for: at its stop, or, unless it is
/// played forward, at its start. All other errors are failures.
pub proof fn lemma_how_the_task_ends<B>(state: State<B>, error: FlowError)
    ensures
        state.finish_action(error) is Pause <==> error == FlowError::Flushing,
        state.finish_action(error) is Fail <==> error != FlowError::Flushing && error
            != FlowError::Eos,
        state.finish_action(error) is SegmentDone <==> error == FlowError::Eos
            && state.segment.announces_segment_done(),
        state.finish_action(error) matches FinishAction::SegmentDone(position) ==> position == (
        if state.segment.rate.forward() {
            state.segment.stop
        } else {
            state.segment.start
        }),
        state.finish_action(error) matches FinishAction::Eos(seqnum) ==> seqnum == state.seqnum,
{
}

/// The output has the framerate of the stream in every structure, and what a pad accepts upstream has any
/// framerate.
pub proof fn lemma_framerates_of_descriptions(caps: CapsModel, framerate: Fraction)
    ensures
        ({
            let output = described_at(caps, framerate);
            let upstream = caps.with_last_field("framerate"@, any_framerate());
            &&& output.any == caps.any
            &&& upstream.any == caps.any
            &&& output.structures.len() == caps.structures.len()
            &&& upstream.structures.len() == caps.structures.len()
            &&& forall|i: int|
                0 <= i < caps.structures.len() ==> (
                #[trigger] output.structures[i]).fields["framerate"@] == FieldModel::Fraction(
                    framerate,
                )
            &&& forall|i: int|
                0 <= i < caps.structures.len() ==> (
                #[trigger] upstream.structures[i]).fields["framerate"@]
                    == FieldModel::FractionRange(
                    Fraction { numer: 0, denom: 1 },
                    Fraction { numer: 0x7fff_ffff, denom: 1 },
                )
        }),
{
}

} // verus!
