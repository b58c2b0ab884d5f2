//! What a whole run of the source task shows.

use crate::clock_time::{
    following, frame_at, frame_start, lemma_frame_start_monotonic, lemma_held_count,
    lemma_next_frame_has_not_started, lemma_shown_frame_has_started, lemma_strictly_later,
    representable, time_of, ClockTime, Fraction, SECOND,
};
use crate::image_freeze::{
    ends_stream, frame_clip, timing, FrameTiming, LoopModel, State,
};
use crate::segment::{
    lemma_clip_keeps_adjacency, lemma_clip_within, lemma_rate_directions, Segment,
};
use vstd::prelude::*;

verus! {

/// The frames that up to `rounds` rounds of the source task show, a frame being due in each, until
/// the stream ends. The flag tells whether the first round follows a jump.
pub open spec fn frames_shown<B>(state: State<B>, discont: bool, rounds: nat) -> Seq<FrameTiming>
    decreases rounds,
{
    if rounds == 0 {
        Seq::empty()
    } else {
        let rest = frames_shown(state.after_frame(), false, (rounds - 1) as nat);
        match state.frame_action(discont) {
            LoopModel::PushBuffer(timing, last) => if last {
                seq![timing]
            } else {
                seq![timing] + rest
            },
            LoopModel::Finish(Ok(_)) => rest,
            _ => Seq::empty(),
        }
    }
}

/// The stream ends within `rounds` rounds of the source task.
pub open spec fn stream_ends<B>(state: State<B>, rounds: nat) -> bool
    decreases rounds,
{
    rounds > 0 && (ends_stream(state.segment, state.framerate, state.offset) || stream_ends(
        state.after_frame(),
        (rounds - 1) as nat,
    ))
}

/// Where a frame ends.
pub open spec fn end_of(frame: FrameTiming) -> int {
    frame.pts.nseconds + frame.duration.nseconds
}

/// The frame is the part of its numbered frame that lies in the segment.
pub open spec fn shows_part_of(frame: FrameTiming, segment: Segment, framerate: Fraction) -> bool {
    &&& frame_clip(segment, framerate, frame.offset) is Some
    &&& frame == timing(
        frame_clip(segment, framerate, frame.offset)->0,
        frame.offset,
        frame.discont,
    )
}

/// The frame lies between the bounds of the segment.
pub open spec fn within_segment(frame: FrameTiming, segment: Segment) -> bool {
    &&& segment.start matches Some(start)
    &&& start.nseconds <= frame.pts.nseconds
    &&& (segment.stop matches Some(stop) ==> end_of(frame) <= stop.nseconds)
}

/// The second frame is the next one, and begins where the first one ends.
pub open spec fn follows(first: FrameTiming, second: FrameTiming) -> bool {
    &&& end_of(first) == second.pts.nseconds
    &&& second.offset == first.offset + 1
}

/// The times of two frames that are held without saturating are in the order of their numbers.
proof fn lemma_times_in_order(a: int, b: int, top: int, framerate: Fraction)
    requires
        framerate.positive(),
        0 <= a <= b <= top,
        representable(top, framerate),
    ensures
        representable(a, framerate),
        representable(b, framerate),
        time_of(a as u64, framerate).nseconds == frame_start(a, framerate),
        time_of(b as u64, framerate).nseconds == frame_start(b, framerate),
        frame_start(a, framerate) <= frame_start(b, framerate),
{
    lemma_frame_start_monotonic(a, b, framerate);
    lemma_frame_start_monotonic(b, top, framerate);
    lemma_frame_start_monotonic(0, a, framerate);
    let d = framerate.denom as int;
    assert(a * d <= b * d <= top * d) by (nonlinear_arith)
        requires
            0 <= a <= b <= top,
            0 < d,
    ;
    assert(0 <= a * d) by (nonlinear_arith)
        requires
            0 <= a,
            0 < d,
    ;
    assert(frame_start(0, framerate) == 0);
}

/// Playing forward, a run shows parts of frames whose numbers count up from the offset or later.
pub proof fn lemma_forward_offsets<B>(
    state: State<B>,
    discont: bool,
    rounds: nat,
)
    requires
        state.segment.rate.forward(),
        state.offset + rounds <= u64::MAX,
    ensures
        forall|i: int|
            0 <= i < frames_shown(state, discont, rounds).len() ==> {
                let frame = #[trigger] frames_shown(state, discont, rounds)[i];
                &&& state.offset <= frame.offset < state.offset + rounds
                &&& shows_part_of(frame, state.segment, state.framerate)
            },
    decreases rounds,
{
    if rounds > 0 {
        let next = state.after_frame();
        lemma_forward_offsets(next, false, (rounds - 1) as nat);
        let tail = frames_shown(next, false, (rounds - 1) as nat);
        let frames = frames_shown(state, discont, rounds);
        assert forall|i: int| 0 <= i < frames.len() implies {
            let frame = #[trigger] frames[i];
            &&& state.offset <= frame.offset < state.offset + rounds
            &&& shows_part_of(frame, state.segment, state.framerate)
        } by {
            let skip: int = if frame_clip(state.segment, state.framerate, state.offset) is Some {
                1
            } else {
                0
            };
            if i >= skip {
                assert(frames[i] == tail[i - skip]);
                assert(shows_part_of(tail[i - skip], next.segment, next.framerate));
            }
        }
    }
}

/// Playing forward, no frame of a run reaches out of the segment.
pub proof fn lemma_forward_frames_within_segment<B>(
    state: State<B>,
    discont: bool,
    rounds: nat,
)
    requires
        state.wf(),
        state.segment.rate.forward(),
        representable(state.offset + rounds, state.framerate),
    ensures
        forall|i: int|
            0 <= i < frames_shown(state, discont, rounds).len() ==> within_segment(
                #[trigger] frames_shown(state, discont, rounds)[i],
                state.segment,
            ),
{
    lemma_forward_offsets(state, discont, rounds);
    let frames = frames_shown(state, discont, rounds);
    assert forall|i: int| 0 <= i < frames.len() implies within_segment(
        #[trigger] frames[i],
        state.segment,
    ) by {
        let n = frames[i].offset as int;
        lemma_times_in_order(n, n + 1, state.offset + rounds, state.framerate);
        lemma_clip_within(
            state.segment,
            time_of(n as u64, state.framerate),
            time_of((n + 1) as u64, state.framerate),
        );
    }
}

/// Playing forward, the frames of a run follow each other without a gap or an overlap, in the order
/// of their numbers.
pub proof fn lemma_forward_frames_follow_each_other<B>(
    state: State<B>,
    discont: bool,
    rounds: nat,
)
    requires
        state.wf(),
        state.segment.rate.forward(),
        representable(state.offset + rounds, state.framerate),
    ensures
        forall|i: int, j: int|
            0 <= i && j == i + 1 && j < frames_shown(state, discont, rounds).len() ==> follows(
                #[trigger] frames_shown(state, discont, rounds)[i],
                #[trigger] frames_shown(state, discont, rounds)[j],
            ),
    decreases rounds,
{
    if rounds > 0 && !ends_stream(state.segment, state.framerate, state.offset) {
        let frames = frames_shown(state, discont, rounds);
        let next = state.after_frame();
        let tail = frames_shown(next, false, (rounds - 1) as nat);
        lemma_forward_frames_follow_each_other(next, false, (rounds - 1) as nat);
        if frame_clip(state.segment, state.framerate, state.offset) is Some {
            assert forall|i: int, j: int| 0 <= i && j == i + 1 && j < frames.len() implies follows(
                #[trigger] frames[i],
                #[trigger] frames[j],
            ) by {
                if i > 0 {
                    assert(frames[i] == tail[i - 1]);
                    assert(frames[j] == tail[j - 1]);
                } else {
                    assert(frames[1] == tail[0]);
                    lemma_forward_second_frame(state, discont, rounds);
                }
            }
        } else {
            assert(frames =~= tail);
        }
    }
}

/// Playing forward, what is shown after the frame at the offset follows it.
proof fn lemma_forward_second_frame<B>(
    state: State<B>,
    discont: bool,
    rounds: nat,
)
    requires
        state.wf(),
        state.segment.rate.forward(),
        representable(state.offset + rounds, state.framerate),
        rounds > 0,
        frame_clip(state.segment, state.framerate, state.offset) is Some,
        frames_shown(state.after_frame(), false, (rounds - 1) as nat).len() > 0,
    ensures
        follows(
            timing(
                frame_clip(state.segment, state.framerate, state.offset)->0,
                state.offset,
                discont,
            ),
            frames_shown(state.after_frame(), false, (rounds - 1) as nat)[0],
        ),
{
    let next = state.after_frame();
    let tail = frames_shown(next, false, (rounds - 1) as nat);
    let top = state.offset + rounds;
    lemma_forward_offsets(next, false, (rounds - 1) as nat);
    assert(shows_part_of(tail[0], next.segment, next.framerate));
    let n = state.offset as int;
    let m = tail[0].offset as int;
    lemma_times_in_order(n, n + 1, top, state.framerate);
    lemma_times_in_order(n + 1, m, top, state.framerate);
    lemma_times_in_order(n + 1, n + 2, top, state.framerate);
    lemma_times_in_order(m, m + 1, top, state.framerate);
    let t0 = time_of(n as u64, state.framerate);
    let t1 = time_of((n + 1) as u64, state.framerate);
    let t2 = time_of((n + 2) as u64, state.framerate);
    assert(frame_clip(state.segment, state.framerate, (n + 1) as u64) is Some);
    lemma_first_shown_here(next, false, (rounds - 1) as nat);
    lemma_clip_keeps_adjacency(state.segment, t0, t1, t2);
    lemma_clip_within(state.segment, t0, t1);
}

/// If the frame at the offset reaches into the segment, it is the first that is shown.
proof fn lemma_first_shown_here<B>(
    state: State<B>,
    discont: bool,
    rounds: nat,
)
    requires
        rounds > 0,
        frame_clip(state.segment, state.framerate, state.offset) is Some,
    ensures
        frames_shown(state, discont, rounds).len() > 0,
        frames_shown(state, discont, rounds)[0].offset == state.offset,
        shows_part_of(frames_shown(state, discont, rounds)[0], state.segment, state.framerate),
{
}

/// Forward, nothing is shown from the stop on.
proof fn lemma_forward_nothing_past_stop<B>(
    state: State<B>,
    discont: bool,
    rounds: nat,
)
    requires
        state.wf(),
        state.segment.rate.forward(),
        state.segment.start != state.segment.stop,
        state.segment.stop matches Some(stop) && stop.nseconds <= time_of(
            state.offset,
            state.framerate,
        ).nseconds,
        representable(state.offset + rounds, state.framerate),
    ensures
        frames_shown(state, discont, rounds).len() == 0,
    decreases rounds,
{
    if rounds > 0 {
        let n = state.offset as int;
        lemma_times_in_order(n, n + 1, state.offset + rounds, state.framerate);
        lemma_forward_nothing_past_stop(state.after_frame(), false, (rounds - 1) as nat);
    }
}

/// Forward, the first frame shown begins at the start of the segment.
proof fn lemma_forward_begins_at_start<B>(
    state: State<B>,
    discont: bool,
    rounds: nat,
    start: ClockTime,
    stop: ClockTime,
)
    requires
        state.wf(),
        state.segment.rate.forward(),
        state.segment.start == Some(start),
        state.segment.stop == Some(stop),
        start.nseconds < stop.nseconds,
        representable(state.offset + rounds, state.framerate),
        time_of(state.offset, state.framerate).nseconds <= start.nseconds,
        stop.nseconds <= time_of((state.offset + rounds) as u64, state.framerate).nseconds,
    ensures
        frames_shown(state, discont, rounds).len() > 0,
        frames_shown(state, discont, rounds)[0].pts == start,
    decreases rounds,
{
    let n = state.offset as int;
    assert(rounds > 0);
    lemma_times_in_order(n, n + 1, n + rounds, state.framerate);
    if frame_clip(state.segment, state.framerate, state.offset) is Some {
        lemma_first_shown_here(state, discont, rounds);
    } else {
        lemma_forward_begins_at_start(state.after_frame(), false, (rounds - 1) as nat, start, stop);
        assert(frames_shown(state, discont, rounds) =~= frames_shown(
            state.after_frame(),
            false,
            (rounds - 1) as nat,
        ));
    }
}

/// Forward, the last frame shown ends at the stop of the segment.
proof fn lemma_forward_ends_at_stop<B>(
    state: State<B>,
    discont: bool,
    rounds: nat,
    start: ClockTime,
    stop: ClockTime,
)
    requires
        state.wf(),
        state.segment.rate.forward(),
        state.segment.start == Some(start),
        state.segment.stop == Some(stop),
        start.nseconds < stop.nseconds,
        representable(state.offset + rounds, state.framerate),
        time_of(state.offset, state.framerate).nseconds < stop.nseconds,
        stop.nseconds <= time_of((state.offset + rounds) as u64, state.framerate).nseconds,
    ensures
        frames_shown(state, discont, rounds).len() > 0,
        end_of(frames_shown(state, discont, rounds).last()) == stop.nseconds,
    decreases rounds,
{
    let n = state.offset as int;
    assert(rounds > 0);
    lemma_times_in_order(n, n + 1, n + rounds, state.framerate);
    let next = state.after_frame();
    let tail = frames_shown(next, false, (rounds - 1) as nat);
    if stop.nseconds <= time_of((n + 1) as u64, state.framerate).nseconds {
        lemma_forward_nothing_past_stop(next, false, (rounds - 1) as nat);
        lemma_first_shown_here(state, discont, rounds);
        assert(frames_shown(state, discont, rounds) =~= seq![
            timing(
                frame_clip(state.segment, state.framerate, state.offset)->0,
                state.offset,
                discont,
            ),
        ]);
    } else {
        lemma_forward_ends_at_stop(next, false, (rounds - 1) as nat, start, stop);
        assert(frames_shown(state, discont, rounds).last() == tail.last());
    }
}

/// Played forward, a stream with a stop ends once a frame starts past it.
pub proof fn lemma_forward_ends<B>(state: State<B>, rounds: nat, stop: ClockTime)
    requires
        state.segment.rate.forward(),
        state.segment.stop == Some(stop),
        state.offset + rounds <= u64::MAX,
        stop.nseconds < time_of((state.offset + rounds) as u64, state.framerate).nseconds,
    ensures
        stream_ends(state, rounds + 1),
    decreases rounds,
{
    if rounds > 0 && !ends_stream(state.segment, state.framerate, state.offset) {
        lemma_forward_ends(state.after_frame(), (rounds - 1) as nat, stop);
    }
}

/// At up to one frame per nanosecond, what is shown of a frame in a segment that is not empty is not
/// empty.
proof fn lemma_shown_part_is_not_empty(
    frame: FrameTiming,
    segment: Segment,
    framerate: Fraction,
    top: int,
)
    requires
        framerate.positive(),
        framerate.numer <= framerate.denom * SECOND,
        segment.ordered(),
        segment.start matches Some(start) && segment.stop matches Some(stop) && start.nseconds
            < stop.nseconds,
        frame.offset < top,
        representable(top, framerate),
        shows_part_of(frame, segment, framerate),
    ensures
        frame.duration.nseconds > 0,
{
    let offset = frame.offset as int;
    lemma_times_in_order(offset, offset + 1, top, framerate);
    lemma_strictly_later(offset, offset + 1, framerate);
    assert(following(frame.offset) == offset + 1);
}

/// Played forward, a segment is shown exactly: the frames begin at its start, follow each other
/// without a gap or an overlap, and end at its stop. At up to one frame per nanosecond none of them is
/// empty.
///
/// `rounds` is any number of rounds that gets past the stop without leaving the range of times.
pub proof fn lemma_forward_shows_whole_segment<B>(
    state: State<B>,
    rounds: nat,
    start: ClockTime,
    stop: ClockTime,
)
    requires
        state.wf(),
        state.segment.rate.forward(),
        state.segment.start == Some(start),
        state.segment.stop == Some(stop),
        start.nseconds < stop.nseconds,
        representable(state.after_segment().offset + rounds, state.framerate),
        stop.nseconds <= time_of(
            (state.after_segment().offset + rounds) as u64,
            state.framerate,
        ).nseconds,
    ensures
        ({
            let frames = frames_shown(state.after_segment(), true, rounds);
            &&& frames.len() > 0
            &&& frames[0].pts == start
            &&& end_of(frames.last()) == stop.nseconds
            &&& state.framerate.numer <= state.framerate.denom * SECOND ==> forall|i: int|
                0 <= i < frames.len() ==> (#[trigger] frames[i]).duration.nseconds > 0
            &&& forall|i: int, j: int|
                0 <= i && j == i + 1 && j < frames.len() ==> follows(
                    #[trigger] frames[i],
                    #[trigger] frames[j],
                )
        }),
{
    let begun = state.after_segment();
    lemma_shown_frame_has_started(start, state.framerate);
    lemma_forward_begins_at_start(begun, true, rounds, start, stop);
    lemma_forward_ends_at_stop(begun, true, rounds, start, stop);
    lemma_forward_frames_follow_each_other(begun, true, rounds);
    if state.framerate.numer <= state.framerate.denom * SECOND {
        let frames = frames_shown(begun, true, rounds);
        lemma_forward_offsets(begun, true, rounds);
        assert forall|i: int| 0 <= i < frames.len() implies (
        #[trigger] frames[i]).duration.nseconds > 0 by {
            lemma_shown_part_is_not_empty(
                frames[i],
                state.segment,
                state.framerate,
                begun.offset + rounds,
            );
        }
    }
}

/// Played forward at up to one frame per nanosecond, a stream with a stop ends, at most three rounds
/// after the frame shown at the stop.
pub proof fn lemma_forward_stream_is_finite<B>(state: State<B>, stop: ClockTime)
    requires
        state.wf(),
        state.segment.rate.forward(),
        state.segment.stop == Some(stop),
        state.framerate.numer <= state.framerate.denom * SECOND,
        state.offset <= frame_at(stop, state.framerate) + 2,
        representable(frame_at(stop, state.framerate) + 2, state.framerate),
    ensures
        stream_ends(
            state,
            (frame_at(stop, state.framerate) + 3 - state.offset) as nat,
        ),
{
    let framerate = state.framerate;
    let f = frame_at(stop, framerate) as int;
    lemma_times_in_order(f + 1, f + 2, f + 2, framerate);
    lemma_strictly_later(f + 1, f + 2, framerate);
    lemma_times_in_order(f + 1, f + 1, f + 2, framerate);
    lemma_held_count(stop, framerate);
    lemma_next_frame_has_not_started(stop, framerate);
    lemma_forward_ends(state, (f + 2 - state.offset) as nat, stop);
}

/// In reverse, a run shows parts of frames whose numbers count down from the offset or less.
pub proof fn lemma_reverse_offsets<B>(
    state: State<B>,
    discont: bool,
    rounds: nat,
)
    requires
        state.segment.rate.reverse(),
    ensures
        forall|i: int|
            0 <= i < frames_shown(state, discont, rounds).len() ==> {
                let frame = #[trigger] frames_shown(state, discont, rounds)[i];
                &&& frame.offset <= state.offset
                &&& shows_part_of(frame, state.segment, state.framerate)
            },
    decreases rounds,
{
    if rounds > 0 {
        lemma_rate_directions(state.segment.rate);
        let next = state.after_frame();
        lemma_reverse_offsets(next, false, (rounds - 1) as nat);
        let tail = frames_shown(next, false, (rounds - 1) as nat);
        let frames = frames_shown(state, discont, rounds);
        assert forall|i: int| 0 <= i < frames.len() implies {
            let frame = #[trigger] frames[i];
            &&& frame.offset <= state.offset
            &&& shows_part_of(frame, state.segment, state.framerate)
        } by {
            let skip: int = if frame_clip(state.segment, state.framerate, state.offset) is Some {
                1
            } else {
                0
            };
            if i >= skip {
                assert(frames[i] == tail[i - skip]);
                assert(shows_part_of(tail[i - skip], next.segment, next.framerate));
            }
        }
    }
}

/// In reverse, no frame of a run reaches out of the segment.
pub proof fn lemma_reverse_frames_within_segment<B>(
    state: State<B>,
    discont: bool,
    rounds: nat,
)
    requires
        state.wf(),
        state.segment.rate.reverse(),
        representable(state.offset + 1, state.framerate),
    ensures
        forall|i: int|
            0 <= i < frames_shown(state, discont, rounds).len() ==> within_segment(
                #[trigger] frames_shown(state, discont, rounds)[i],
                state.segment,
            ),
{
    lemma_reverse_offsets(state, discont, rounds);
    let frames = frames_shown(state, discont, rounds);
    assert forall|i: int| 0 <= i < frames.len() implies within_segment(
        #[trigger] frames[i],
        state.segment,
    ) by {
        let n = frames[i].offset as int;
        lemma_times_in_order(n, n + 1, state.offset + 1, state.framerate);
        lemma_clip_within(
            state.segment,
            time_of(n as u64, state.framerate),
            time_of((n + 1) as u64, state.framerate),
        );
    }
}

/// In reverse, each frame of a run is followed by the frame before it: what is shown next ends where
/// the frame begins.
pub proof fn lemma_reverse_frames_precede_each_other<B>(
    state: State<B>,
    discont: bool,
    rounds: nat,
)
    requires
        state.wf(),
        state.segment.rate.reverse(),
        representable(state.offset + 1, state.framerate),
    ensures
        forall|i: int, j: int|
            0 <= i && j == i + 1 && j < frames_shown(state, discont, rounds).len() ==> follows(
                #[trigger] frames_shown(state, discont, rounds)[j],
                #[trigger] frames_shown(state, discont, rounds)[i],
            ),
    decreases rounds,
{
    if rounds > 0 && !ends_stream(state.segment, state.framerate, state.offset) {
        lemma_rate_directions(state.segment.rate);
        let frames = frames_shown(state, discont, rounds);
        let next = state.after_frame();
        let tail = frames_shown(next, false, (rounds - 1) as nat);
        let n = state.offset as int;
        lemma_times_in_order(n, n + 1, n + 1, state.framerate);
        lemma_reverse_frames_precede_each_other(next, false, (rounds - 1) as nat);
        if frame_clip(state.segment, state.framerate, state.offset) is Some {
            assert forall|i: int, j: int| 0 <= i && j == i + 1 && j < frames.len() implies follows(
                #[trigger] frames[j],
                #[trigger] frames[i],
            ) by {
                if i > 0 {
                    assert(frames[i] == tail[i - 1]);
                    assert(frames[j] == tail[j - 1]);
                } else {
                    assert(frames[1] == tail[0]);
                    lemma_reverse_second_frame(state, discont, rounds);
                }
            }
        } else {
            assert(frames =~= tail);
        }
    }
}

/// In reverse, what is shown after the frame at the offset precedes it.
proof fn lemma_reverse_second_frame<B>(
    state: State<B>,
    discont: bool,
    rounds: nat,
)
    requires
        state.wf(),
        state.segment.rate.reverse(),
        representable(state.offset + 1, state.framerate),
        rounds > 0,
        !ends_stream(state.segment, state.framerate, state.offset),
        frame_clip(state.segment, state.framerate, state.offset) is Some,
        frames_shown(state.after_frame(), false, (rounds - 1) as nat).len() > 0,
    ensures
        follows(
            frames_shown(state.after_frame(), false, (rounds - 1) as nat)[0],
            timing(
                frame_clip(state.segment, state.framerate, state.offset)->0,
                state.offset,
                discont,
            ),
        ),
{
    lemma_rate_directions(state.segment.rate);
    let next = state.after_frame();
    let tail = frames_shown(next, false, (rounds - 1) as nat);
    let n = state.offset as int;
    lemma_reverse_offsets(next, false, (rounds - 1) as nat);
    assert(shows_part_of(tail[0], next.segment, next.framerate));
    let m = tail[0].offset as int;
    lemma_times_in_order(n, n + 1, n + 1, state.framerate);
    lemma_times_in_order(n - 1, n, n + 1, state.framerate);
    lemma_times_in_order(m, n - 1, n + 1, state.framerate);
    lemma_times_in_order(m + 1, n, n + 1, state.framerate);
    let t0 = time_of((n - 1) as u64, state.framerate);
    let t1 = time_of(n as u64, state.framerate);
    let t2 = time_of((n + 1) as u64, state.framerate);
    assert(frame_clip(state.segment, state.framerate, (n - 1) as u64) is Some);
    lemma_first_shown_here(next, false, (rounds - 1) as nat);
    lemma_clip_keeps_adjacency(state.segment, t0, t1, t2);
    lemma_clip_within(state.segment, t0, t1);
}

/// In reverse, the first frame shown ends at the stop of the segment.
proof fn lemma_reverse_begins_at_stop<B>(
    state: State<B>,
    discont: bool,
    rounds: nat,
    start: ClockTime,
    stop: ClockTime,
)
    requires
        state.wf(),
        state.segment.rate.reverse(),
        state.segment.start == Some(start),
        state.segment.stop == Some(stop),
        start.nseconds < stop.nseconds,
        representable(state.offset + 1, state.framerate),
        stop.nseconds <= time_of((state.offset + 1) as u64, state.framerate).nseconds,
        rounds > state.offset,
    ensures
        frames_shown(state, discont, rounds).len() > 0,
        end_of(frames_shown(state, discont, rounds)[0]) == stop.nseconds,
    decreases rounds,
{
    lemma_rate_directions(state.segment.rate);
    let n = state.offset as int;
    lemma_times_in_order(n, n + 1, n + 1, state.framerate);
    lemma_times_in_order(0, n, n + 1, state.framerate);
    if frame_clip(state.segment, state.framerate, state.offset) is Some {
        lemma_first_shown_here(state, discont, rounds);
        lemma_clip_within(
            state.segment,
            time_of(n as u64, state.framerate),
            time_of((n + 1) as u64, state.framerate),
        );
    } else {
        assert(n > 0) by {
            assert(frame_start(0, state.framerate) == 0);
        }
        lemma_reverse_begins_at_stop(state.after_frame(), false, (rounds - 1) as nat, start, stop);
        assert(frames_shown(state, discont, rounds) =~= frames_shown(
            state.after_frame(),
            false,
            (rounds - 1) as nat,
        ));
    }
}

/// In reverse, frames that end at the start of the segment or before show nothing but its start.
proof fn lemma_reverse_nothing_before_start<B>(
    state: State<B>,
    discont: bool,
    rounds: nat,
    start: ClockTime,
)
    requires
        state.wf(),
        state.segment.rate.reverse(),
        state.segment.start == Some(start),
        representable(state.offset + 1, state.framerate),
        time_of((state.offset + 1) as u64, state.framerate).nseconds <= start.nseconds,
    ensures
        forall|i: int|
            0 <= i < frames_shown(state, discont, rounds).len() ==> (#[trigger] frames_shown(
                state,
                discont,
                rounds,
            )[i]).pts == start,
{
    lemma_reverse_offsets(state, discont, rounds);
    let frames = frames_shown(state, discont, rounds);
    assert forall|i: int| 0 <= i < frames.len() implies (#[trigger] frames[i]).pts == start by {
        let m = frames[i].offset as int;
        lemma_times_in_order(m, m + 1, state.offset + 1, state.framerate);
        lemma_times_in_order(m + 1, state.offset + 1, state.offset + 1, state.framerate);
        lemma_clip_within(
            state.segment,
            time_of(m as u64, state.framerate),
            time_of((m + 1) as u64, state.framerate),
        );
    }
}

/// In reverse, the last frame shown begins at the start of the segment.
proof fn lemma_reverse_ends_at_start<B>(
    state: State<B>,
    discont: bool,
    rounds: nat,
    start: ClockTime,
    stop: ClockTime,
)
    requires
        state.wf(),
        state.segment.rate.reverse(),
        state.segment.start == Some(start),
        state.segment.stop == Some(stop),
        start.nseconds < stop.nseconds,
        representable(state.offset + 1, state.framerate),
        start.nseconds < time_of((state.offset + 1) as u64, state.framerate).nseconds,
        rounds > state.offset,
    ensures
        frames_shown(state, discont, rounds).len() > 0,
        frames_shown(state, discont, rounds).last().pts == start,
    decreases rounds,
{
    lemma_rate_directions(state.segment.rate);
    let n = state.offset as int;
    let frames = frames_shown(state, discont, rounds);
    lemma_times_in_order(n, n + 1, n + 1, state.framerate);
    lemma_times_in_order(0, n, n + 1, state.framerate);
    assert(frame_start(0, state.framerate) == 0);
    let next = state.after_frame();
    let tail = frames_shown(next, false, (rounds - 1) as nat);
    if time_of(n as u64, state.framerate).nseconds <= start.nseconds {
        lemma_first_shown_here(state, discont, rounds);
        if !ends_stream(state.segment, state.framerate, state.offset) {
            lemma_reverse_nothing_before_start(next, false, (rounds - 1) as nat, start);
            if tail.len() > 0 {
                assert(frames.last() == tail[tail.len() - 1]);
            } else {
                assert(frames =~= seq![frames[0]]);
            }
        }
    } else {
        lemma_reverse_ends_at_start(next, false, (rounds - 1) as nat, start, stop);
        assert(frames.last() == tail.last());
    }
}

/// Played in reverse, a segment is shown exactly: the frames begin at its stop, each is followed by
/// the one before it without a gap or an overlap, and they end at its start. At up to one frame per
/// nanosecond none of them is empty. The stream then ends.
pub proof fn lemma_reverse_shows_whole_segment<B>(state: State<B>, start: ClockTime, stop: ClockTime)
    requires
        state.wf(),
        state.segment.rate.reverse(),
        state.segment.start == Some(start),
        state.segment.stop == Some(stop),
        start.nseconds < stop.nseconds,
        representable(frame_at(stop, state.framerate) + 1, state.framerate),
    ensures
        ({
            let rounds = (frame_at(stop, state.framerate) + 1) as nat;
            let frames = frames_shown(state.after_segment(), true, rounds);
            &&& frames.len() > 0
            &&& end_of(frames[0]) == stop.nseconds
            &&& frames.last().pts == start
            &&& state.framerate.numer <= state.framerate.denom * SECOND ==> forall|i: int|
                0 <= i < frames.len() ==> (#[trigger] frames[i]).duration.nseconds > 0
            &&& forall|i: int, j: int|
                0 <= i && j == i + 1 && j < frames.len() ==> follows(
                    #[trigger] frames[j],
                    #[trigger] frames[i],
                )
            &&& stream_ends(state.after_segment(), rounds)
        }),
{
    lemma_rate_directions(state.segment.rate);
    let begun = state.after_segment();
    let rounds = (frame_at(stop, state.framerate) + 1) as nat;
    lemma_held_count(stop, state.framerate);
    lemma_next_frame_has_not_started(stop, state.framerate);
    lemma_reverse_begins_at_stop(begun, true, rounds, start, stop);
    lemma_reverse_ends_at_start(begun, true, rounds, start, stop);
    lemma_reverse_frames_precede_each_other(begun, true, rounds);
    lemma_reverse_stream_is_finite(begun, rounds);
    if state.framerate.numer <= state.framerate.denom * SECOND {
        let frames = frames_shown(begun, true, rounds);
        lemma_reverse_offsets(begun, true, rounds);
        assert forall|i: int| 0 <= i < frames.len() implies (
        #[trigger] frames[i]).duration.nseconds > 0 by {
            lemma_shown_part_is_not_empty(
                frames[i],
                state.segment,
                state.framerate,
                rounds as int,
            );
        }
    }
}

/// Played in reverse, every stream ends, with its very first frame at the latest.
pub proof fn lemma_reverse_stream_is_finite<B>(state: State<B>, rounds: nat)
    requires
        state.segment.rate.reverse(),
        rounds > state.offset,
    ensures
        stream_ends(state, rounds),
    decreases rounds,
{
    lemma_rate_directions(state.segment.rate);
    if !ends_stream(state.segment, state.framerate, state.offset) {
        lemma_reverse_stream_is_finite(state.after_frame(), (rounds - 1) as nat);
    }
}

} // verus!
