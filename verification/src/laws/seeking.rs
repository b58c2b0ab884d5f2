//! Seeks.

use crate::clock_time::{frame_at, representable, time_of, ClockTime, Fraction};
use crate::format::{Format, FormattedValue};
use crate::image_freeze::{seek_action, seek_bounds, seekable_to, SeekAction, SeekRequest, State};
use crate::laws::source::{same_input, same_properties};
use crate::playback::{
    end_of, follows, frames_shown, lemma_forward_shows_whole_segment,
    lemma_reverse_shows_whole_segment,
};
use crate::segment::Segment;
use vstd::prelude::*;

verus! {

/// A seek that leads to a segment makes that segment the one that is played. With a duration, it stops at
/// the lesser of its stop and the duration; without one, it is played as it is. The segment has then to be
/// announced, under the sequence number of the seek, and nothing flushes. Nothing else changes.
pub proof fn lemma_sought_segment_is_played<B>(state: State<B>, seqnum: u32, sought: Segment)
    ensures
        ({
            let after = state.after_seek(seqnum, Some(sought));
            &&& state.duration is None ==> after.segment == sought
            &&& after.segment.rate == sought.rate
            &&& after.segment.applied_rate == sought.applied_rate
            &&& after.segment.flags == sought.flags
            &&& after.segment.base == sought.base
            &&& after.segment.offset == sought.offset
            &&& after.segment.start == sought.start
            &&& after.segment.time == sought.time
            &&& after.segment.position == sought.position
            &&& (state.duration matches Some(duration) ==> {
                &&& after.segment.duration == Some(duration)
                &&& after.segment.stop is Some
                &&& after.segment.stop->0.nseconds <= duration.nseconds
                &&& (sought.stop matches Some(stop) ==> after.segment.stop->0.nseconds
                    <= stop.nseconds)
                &&& after.segment.stop == Some(duration) || after.segment.stop == sought.stop
            })
            &&& after.need_segment
            &&& after.seqnum == Some(seqnum)
            &&& !after.flushing
            &&& same_properties(after, state)
            &&& same_input(after, state)
            &&& after.offset == state.offset
            &&& after.direct_eos == state.direct_eos
        }),
{
}

/// A seek that leads to no segment keeps the old one, which has to be announced anew, under the sequence
/// number of the seek.
pub proof fn lemma_seek_that_leads_nowhere<B>(state: State<B>, seqnum: u32)
    requires
        state.wf(),
    ensures
        ({
            let after = state.after_seek(seqnum, None);
            &&& after.segment == state.segment
            &&& after.need_segment
            &&& after.seqnum == Some(seqnum)
            &&& !after.flushing
            &&& same_properties(after, state)
            &&& same_input(after, state)
            &&& after.offset == state.offset
            &&& after.direct_eos == state.direct_eos
        }),
{
}

/// A request with a rate and bounds that are times is granted: the bounds are handed on as they are, and
/// the stream is flushed if the request asks for it.
pub proof fn lemma_seek_by_time(
    request: SeekRequest,
    framerate: Fraction,
    start: Option<ClockTime>,
    stop: Option<ClockTime>,
)
    requires
        !request.rate.zero(),
        request.start.format == Format::Time,
        request.stop.format == Format::Time,
        start matches Some(time) ==> 0 <= request.start.value && time.nseconds
            == request.start.value,
        start is None ==> request.start.value == -1,
        stop matches Some(time) ==> 0 <= request.stop.value && time.nseconds == request.stop.value,
        stop is None ==> request.stop.value == -1,
    ensures
        seek_action(request, framerate) == SeekAction::Interrupt(request.flush, start, stop),
{
}

/// A request by frames is one by the times at which they start. No frame is no time, and a stop that is a
/// time already stays as it is.
pub proof fn lemma_seek_by_frame(
    request: SeekRequest,
    framerate: Fraction,
    start: Option<ClockTime>,
    stop: Option<ClockTime>,
)
    requires
        framerate.positive(),
        !request.rate.zero(),
        request.start.format == Format::Default,
        request.stop.format == Format::Default,
        start matches Some(time) ==> 0 <= request.start.value && time == time_of(
            request.start.value as u64,
            framerate,
        ) && time.nseconds <= 0x7fff_ffff_ffff_ffff,
        start is None ==> request.start.value == -1,
        stop matches Some(time) ==> 0 <= request.stop.value && time == time_of(
            request.stop.value as u64,
            framerate,
        ) && time.nseconds <= 0x7fff_ffff_ffff_ffff,
        stop is None ==> request.stop.value == -1,
    ensures
        seek_action(request, framerate) == SeekAction::Interrupt(request.flush, start, stop),
        seek_bounds(
            request.start,
            FormattedValue { format: Format::Time, value: request.stop.value },
            framerate,
        ) == (if request.stop.value == -1 {
            Some((start, None))
        } else {
            Some((start, Some(ClockTime { nseconds: request.stop.value as u64 })))
        }),
{
}

/// A request is refused if it has no rate, if its start is neither a time nor a frame, if its start is a
/// time and its stop is none, and if a frame is negative or starts too late to be a value.
pub proof fn lemma_refused_seeks(request: SeekRequest, framerate: Fraction)
    ensures
        request.rate.zero() ==> seek_action(request, framerate) == SeekAction::Refuse,
        request.start.format != Format::Time && request.start.format != Format::Default
            ==> seek_action(request, framerate) == SeekAction::Refuse,
        request.start.format == Format::Time && request.stop.format != Format::Time
            ==> seek_action(request, framerate) == SeekAction::Refuse,
        request.start.format == Format::Default && request.start.value < -1 ==> seek_action(
            request,
            framerate,
        ) == SeekAction::Refuse,
        request.start.format == Format::Default && request.start.value >= 0 && time_of(
            request.start.value as u64,
            framerate,
        ).nseconds > 0x7fff_ffff_ffff_ffff ==> seek_action(request, framerate)
            == SeekAction::Refuse,
        request.start.format == Format::Default && request.stop.format == Format::Default
            && request.stop.value < -1 ==> seek_action(request, framerate) == SeekAction::Refuse,
        request.start.format == Format::Default && request.stop.format != Format::Default
            && request.stop.format != Format::Time && request.stop.value != -1 ==> seek_action(
            request,
            framerate,
        ) == SeekAction::Refuse,
        seek_action(request, framerate) matches SeekAction::Interrupt(flush, _, _) ==> flush
            == request.flush,
{
}

/// Beside a start in frames, a stop without a value is none in every unit, and one that starts too late to
/// be a value is refused.
pub proof fn lemma_stop_beside_a_frame(start: FormattedValue, stop: FormattedValue, framerate: Fraction)
    requires
        framerate.positive(),
        start.format == Format::Default,
        start.value >= 0,
        time_of(start.value as u64, framerate).nseconds <= 0x7fff_ffff_ffff_ffff,
    ensures
        stop.value == -1 ==> seek_bounds(start, stop, framerate) == Some(
            (Some(time_of(start.value as u64, framerate)), None::<ClockTime>),
        ),
        stop.format == Format::Default && stop.value >= 0 && time_of(
            stop.value as u64,
            framerate,
        ).nseconds > 0x7fff_ffff_ffff_ffff ==> seek_bounds(start, stop, framerate) is None,
{
}

/// A negative time is a late one, as its bits are without a sign.
pub proof fn lemma_seek_by_late_time(start: FormattedValue, stop: FormattedValue, framerate: Fraction)
    requires
        start.format == Format::Time,
        stop.format == Format::Time,
        start.value < -1,
        stop.value < -1,
    ensures
        seek_bounds(start, stop, framerate) matches Some((Some(a), Some(b))) && a.nseconds
            == start.value + 0x1_0000_0000_0000_0000int && b.nseconds == stop.value
            + 0x1_0000_0000_0000_0000int,
{
}

/// While a seek is under way, the stream flushes if that was asked for. Nothing else changes, and a refused
/// request changes nothing.
pub proof fn lemma_seek_under_way<B>(
    state: State<B>,
    flush: bool,
    start: Option<ClockTime>,
    stop: Option<ClockTime>,
)
    ensures
        ({
            let after = state.after_seek_begun(SeekAction::Interrupt(flush, start, stop));
            &&& flush ==> after.flushing
            &&& !flush ==> after == state
            &&& (State { flushing: state.flushing, ..after }) == state
            &&& state.after_seek_begun(SeekAction::Refuse) == state
        }),
{
}

/// Seeking can lead to a segment in order, of the same duration, that begins within it.
pub proof fn lemma_segments_to_seek_to(before: Segment, after: Segment)
    ensures
        seekable_to(before, after) <==> {
            &&& after.ordered()
            &&& after.duration == before.duration
            &&& (after.start matches Some(start) ==> after.duration matches Some(duration)
                ==> start.nseconds <= duration.nseconds)
        },
{
}

/// A range that is sought and played forward is shown exactly, up to the duration: the frames begin at its
/// start, follow each other without a gap or an overlap, and end at its stop or at the duration.
pub proof fn lemma_sought_range_is_shown<B>(
    state: State<B>,
    seqnum: u32,
    sought: Segment,
    start: ClockTime,
    end: ClockTime,
    rounds: nat,
)
    requires
        state.wf(),
        sought.ordered(),
        sought.duration == state.duration,
        sought.rate.forward(),
        sought.start == Some(start),
        state.duration is None ==> sought.stop == Some(end),
        state.duration matches Some(duration) ==> {
            &&& end == duration || sought.stop == Some(end)
            &&& end.nseconds <= duration.nseconds
            &&& (sought.stop matches Some(stop) ==> end.nseconds <= stop.nseconds)
        },
        start.nseconds < end.nseconds,
        representable(frame_at(start, state.framerate) + rounds, state.framerate),
        end.nseconds <= time_of(
            (frame_at(start, state.framerate) + rounds) as u64,
            state.framerate,
        ).nseconds,
    ensures
        ({
            let after = state.after_seek(seqnum, Some(sought));
            let frames = frames_shown(after.after_segment(), true, rounds);
            &&& frames.len() > 0
            &&& frames[0].pts == start
            &&& end_of(frames.last()) == end.nseconds
            &&& forall|i: int, j: int|
                0 <= i && j == i + 1 && j < frames.len() ==> follows(
                    #[trigger] frames[i],
                    #[trigger] frames[j],
                )
        }),
{
    let after = state.after_seek(seqnum, Some(sought));
    lemma_sought_segment_is_played(state, seqnum, sought);
    assert(after.segment.stop == Some(end));
    lemma_forward_shows_whole_segment(after, rounds, start, end);
}

/// A range that is sought and played in reverse is shown exactly, from its stop or the duration down to its
/// start.
pub proof fn lemma_sought_range_is_shown_in_reverse<B>(
    state: State<B>,
    seqnum: u32,
    sought: Segment,
    start: ClockTime,
    end: ClockTime,
)
    requires
        state.wf(),
        sought.ordered(),
        sought.duration == state.duration,
        sought.rate.reverse(),
        sought.start == Some(start),
        state.duration is None ==> sought.stop == Some(end),
        state.duration matches Some(duration) ==> {
            &&& end == duration || sought.stop == Some(end)
            &&& end.nseconds <= duration.nseconds
            &&& (sought.stop matches Some(stop) ==> end.nseconds <= stop.nseconds)
        },
        start.nseconds < end.nseconds,
        representable(frame_at(end, state.framerate) + 1, state.framerate),
    ensures
        ({
            let after = state.after_seek(seqnum, Some(sought));
            let rounds = (frame_at(end, state.framerate) + 1) as nat;
            let frames = frames_shown(after.after_segment(), true, rounds);
            &&& frames.len() > 0
            &&& end_of(frames[0]) == end.nseconds
            &&& frames.last().pts == start
        }),
{
    let after = state.after_seek(seqnum, Some(sought));
    lemma_sought_segment_is_played(state, seqnum, sought);
    assert(after.segment.stop == Some(end));
    lemma_reverse_shows_whole_segment(after, start, end);
}

} // verus!
