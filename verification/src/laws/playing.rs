//! Whole runs of the source task.

use crate::clock_time::{
    following, frame_at, frame_start, lemma_frame_start_monotonic, lemma_shown_frame_has_started,
    representable, time_of, ClockTime, Fraction,
};
use crate::image_freeze::{frame_clip, frame_defined, LoopModel, Reply, SrcQuery, State};
use crate::format::Format;
use crate::laws::source::lemma_frame_moves_the_position;
use crate::playback::{end_of, frames_shown};
use vstd::prelude::*;

verus! {

/// The state after up to `rounds` rounds of the source task, a frame being due in each, until the stream
/// ends.
pub open spec fn after_run<B>(state: State<B>, rounds: nat) -> State<B>
    decreases rounds,
{
    if rounds == 0 {
        state
    } else {
        match state.frame_action(false) {
            LoopModel::PushBuffer(_, false) | LoopModel::Finish(Ok(_)) => after_run(
                state.after_frame(),
                (rounds - 1) as nat,
            ),
            _ => state.after_frame(),
        }
    }
}

/// The times of frames that can be held are in order, and can be shown.
proof fn lemma_held_times(offset: u64, top: int, framerate: Fraction)
    requires
        framerate.positive(),
        offset < top,
        representable(top, framerate),
    ensures
        representable(offset as int, framerate),
        representable(offset + 1, framerate),
        offset < u64::MAX,
        following(offset) == offset + 1,
        time_of(offset, framerate).defined(),
        time_of((offset + 1) as u64, framerate).defined(),
        time_of(offset, framerate).nseconds <= time_of((offset + 1) as u64, framerate).nseconds,
{
    let d = framerate.denom as int;
    let o = offset as int;
    assert(0 <= o * d <= (o + 1) * d <= top * d) by (nonlinear_arith)
        requires
            0 <= o,
            o + 1 <= top,
            0 < d,
    ;
    lemma_frame_start_monotonic(o, o + 1, framerate);
    lemma_frame_start_monotonic(o + 1, top, framerate);
    lemma_frame_start_monotonic(0, o, framerate);
    assert(frame_start(0, framerate) >= 0) by {
        let n = framerate.numer as int;
        assert(0int / n == 0) by (nonlinear_arith)
            requires
                n > 0,
        ;
    }
}

/// Only the first frame of a run can be marked as following a jump: it is, if the run follows one and the
/// frame is that of the first round.
pub proof fn lemma_only_the_first_frame_follows_a_jump<B>(
    state: State<B>,
    discont: bool,
    rounds: nat,
)
    ensures
        ({
            let frames = frames_shown(state, discont, rounds);
            &&& forall|i: int| 0 < i < frames.len() ==> !(#[trigger] frames[i]).discont
            &&& frames.len() > 0 && frame_clip(state.segment, state.framerate, state.offset)
                is Some ==> frames[0].discont == discont && frames[0].offset == state.offset
            &&& frames.len() > 0 && frame_clip(state.segment, state.framerate, state.offset)
                is None ==> !frames[0].discont
        }),
    decreases rounds,
{
    if rounds > 0 {
        let rest = frames_shown(state.after_frame(), false, (rounds - 1) as nat);
        let frames = frames_shown(state, discont, rounds);
        lemma_only_the_first_frame_follows_a_jump(
            state.after_frame(),
            false,
            (rounds - 1) as nat,
        );
        assert forall|i: int| 0 < i < frames.len() implies !(#[trigger] frames[i]).discont by {
            match state.frame_action(discont) {
                LoopModel::PushBuffer(_, last) => {
                    assert(!last);
                    assert(frames[i] == rest[i - 1]);
                },
                _ => {
                    assert(frames[i] == rest[i]);
                },
            }
        }
    }
}

proof fn lemma_begins_at_start<B>(state: State<B>, discont: bool, rounds: nat, start: ClockTime)
    requires
        state.framerate.positive(),
        state.segment.ordered(),
        state.segment.rate.forward(),
        state.segment.start == Some(start),
        state.segment.stop is None,
        representable(state.offset + rounds, state.framerate),
        time_of(state.offset, state.framerate).nseconds <= start.nseconds,
        start.nseconds < time_of((state.offset + rounds) as u64, state.framerate).nseconds,
    ensures
        frames_shown(state, discont, rounds).len() > 0,
        frames_shown(state, discont, rounds)[0].pts == start,
    decreases rounds,
{
    if rounds > 0 {
        lemma_held_times(state.offset, state.offset + rounds, state.framerate);
        if frame_clip(state.segment, state.framerate, state.offset) is None {
            lemma_begins_at_start(state.after_frame(), false, (rounds - 1) as nat, start);
        }
    }
}

/// Played forward without a stop, a segment is shown from its start on: the first frame shown begins there,
/// even if that is in the middle of a frame. It is marked as following a jump if the frame shown at the
/// start has not ended by then; a frame that ends there, its time having been rounded down, is passed
/// over.
///
/// `rounds` is any number of rounds that gets past the start without leaving the range of times.
pub proof fn lemma_unlimited_segment_is_shown_from_its_start<B>(
    state: State<B>,
    rounds: nat,
    start: ClockTime,
)
    requires
        state.framerate.positive(),
        state.segment.ordered(),
        state.segment.rate.forward(),
        state.segment.start == Some(start),
        state.segment.stop is None,
        representable(frame_at(start, state.framerate) + rounds, state.framerate),
        start.nseconds < time_of(
            (frame_at(start, state.framerate) + rounds) as u64,
            state.framerate,
        ).nseconds,
    ensures
        ({
            let frames = frames_shown(state.after_segment(), true, rounds);
            let shown = frame_at(start, state.framerate);
            &&& frames.len() > 0
            &&& frames[0].pts == start
            &&& start.nseconds < time_of((shown + 1) as u64, state.framerate).nseconds ==> {
                &&& frames[0].discont
                &&& frames[0].offset == shown
                &&& end_of(frames[0]) == time_of((shown + 1) as u64, state.framerate).nseconds
            }
            &&& forall|i: int| 0 < i < frames.len() ==> !(#[trigger] frames[i]).discont
        }),
{
    let begun = state.after_segment();
    lemma_shown_frame_has_started(start, state.framerate);
    lemma_begins_at_start(begun, true, rounds, start);
    lemma_only_the_first_frame_follows_a_jump(begun, true, rounds);
    lemma_held_times(begun.offset, begun.offset + rounds, state.framerate);
}

/// After a run, the position is where the last frame shown ends, or, played in reverse, where it begins. If
/// nothing was shown, it is where it was.
pub proof fn lemma_position_after_a_run<B>(
    state: State<B>,
    discont: bool,
    rounds: nat,
    top: int,
)
    requires
        state.framerate.positive(),
        state.segment.ordered(),
        state.segment.start is Some,
        state.segment.rate.number(),
        representable(top, state.framerate),
        state.segment.rate.forward() ==> state.offset + rounds <= top,
        state.segment.rate.reverse() ==> state.offset < top,
    ensures
        ({
            let frames = frames_shown(state, discont, rounds);
            let after = after_run(state, rounds);
            if frames.len() == 0 {
                after.segment.position == state.segment.position
            } else {
                after.segment.position matches Some(position) && position.nseconds == (
                if state.segment.rate.forward() {
                    end_of(frames.last())
                } else {
                    frames.last().pts.nseconds as int
                })
            }
        }),
        after_run(state, rounds).reply(SrcQuery::Position(Format::Time)) == Reply::PositionTime(
            after_run(state, rounds).segment.position,
        ),
    decreases rounds,
{
    if rounds > 0 {
        lemma_held_times(state.offset, top, state.framerate);
        assert(frame_defined(state.segment, state.framerate, state.offset));
        lemma_frame_moves_the_position(state, discont);
        let frames = frames_shown(state, discont, rounds);
        let rest = frames_shown(state.after_frame(), false, (rounds - 1) as nat);
        lemma_position_after_a_run(state.after_frame(), false, (rounds - 1) as nat, top);
        match state.frame_action(discont) {
            LoopModel::PushBuffer(timing, last) => {
                if !last {
                    assert(frames =~= seq![timing] + rest);
                    if rest.len() > 0 {
                        assert(frames.last() == rest.last());
                    } else {
                        assert(frames.last() == timing);
                    }
                }
            },
            _ => {},
        }
    }
}

/// A run changes nothing but the position and the number of the next frame.
pub proof fn lemma_a_run_keeps_the_rest<B>(state: State<B>, rounds: nat)
    ensures
        ({
            let after = after_run(state, rounds);
            &&& after.segment.start == state.segment.start
            &&& after.segment.stop == state.segment.stop
            &&& after.segment.rate == state.segment.rate
            &&& after.segment.flags == state.segment.flags
            &&& after.segment.duration == state.segment.duration
            &&& after.framerate == state.framerate
            &&& after.duration == state.duration
            &&& after.buffer == state.buffer
            &&& after.buffer_caps == state.buffer_caps
            &&& after.current_caps == state.current_caps
            &&& after.seqnum == state.seqnum
            &&& after.need_segment == state.need_segment
            &&& after.flushing == state.flushing
            &&& after.direct_eos == state.direct_eos
        }),
    decreases rounds,
{
    if rounds > 0 {
        lemma_a_run_keeps_the_rest(state.after_frame(), (rounds - 1) as nat);
    }
}

} // verus!
