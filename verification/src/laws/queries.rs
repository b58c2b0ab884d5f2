//! Answers to queries.

use crate::clock_time::{frame_at, time_of, ClockTime};
use crate::format::{converted, Format, FormattedValue};
use crate::image_freeze::{frame_defined, LoopModel, Reply, SrcQuery, State};
use crate::laws::source::lemma_frame_moves_the_position;
use vstd::prelude::*;

verus! {

/// The position is that of the segment, in time, and the number of the next frame, in frames.
pub proof fn lemma_position<B>(state: State<B>, unit: Format)
    ensures
        state.reply(SrcQuery::Position(Format::Time)) == Reply::PositionTime(
            state.segment.position,
        ),
        state.reply(SrcQuery::Position(Format::Default)) == Reply::PositionFrames(state.offset),
        unit != Format::Time && unit != Format::Default ==> state.reply(SrcQuery::Position(unit))
            == Reply::Refuse,
{
}

/// After a frame was shown, the position is where it ends, or, played in reverse, where it begins.
pub proof fn lemma_position_after_a_frame<B>(state: State<B>, discont: bool)
    requires
        state.segment.ordered(),
        time_of(state.offset, state.framerate).nseconds <= time_of(
            if state.offset < u64::MAX {
                (state.offset + 1) as u64
            } else {
                u64::MAX
            },
            state.framerate,
        ).nseconds,
        frame_defined(state.segment, state.framerate, state.offset),
    ensures
        state.frame_action(discont) matches LoopModel::PushBuffer(frame, _) ==> {
            let position = ClockTime {
                nseconds: if state.segment.rate.forward() {
                    (frame.pts.nseconds + frame.duration.nseconds) as u64
                } else {
                    frame.pts.nseconds
                },
            };
            state.after_frame().reply(SrcQuery::Position(Format::Time)) == Reply::PositionTime(
                Some(position),
            )
        },
{
    lemma_frame_moves_the_position(state, discont);
}

/// The duration is the one that was set, and in frames the number of those that have passed by then.
/// Seeking reaches just as far, and no further.
pub proof fn lemma_duration_and_range<B>(state: State<B>, unit: Format)
    ensures
        state.reply(SrcQuery::Duration(Format::Time)) == Reply::DurationTime(state.duration),
        state.reply(SrcQuery::Seeking(Format::Time)) == Reply::SeekingTime(state.duration),
        state.duration is None ==> {
            &&& state.reply(SrcQuery::Duration(Format::Default)) == Reply::DurationFrames(None)
            &&& state.reply(SrcQuery::Seeking(Format::Default)) == Reply::SeekingFrames(None)
        },
        state.duration matches Some(duration) ==> {
            let count = Some(frame_at(duration, state.framerate));
            &&& state.reply(SrcQuery::Duration(Format::Default)) == Reply::DurationFrames(count)
            &&& state.reply(SrcQuery::Seeking(Format::Default)) == Reply::SeekingFrames(count)
        },
        unit != Format::Time && unit != Format::Default ==> {
            &&& state.reply(SrcQuery::Duration(unit)) == Reply::Refuse
            &&& state.reply(SrcQuery::Seeking(unit)) == Reply::Refuse
        },
{
}

/// A value is answered with what it converts to at the framerate of the stream, next to itself, and refused
/// if it does not convert.
pub proof fn lemma_conversion_is_answered<B>(state: State<B>, source: FormattedValue, unit: Format)
    ensures
        state.reply(SrcQuery::Convert(source, unit)) == (match converted(
            source,
            unit,
            state.framerate,
        ) {
            Some(value) => Reply::Convert(source, value),
            None => Reply::Refuse,
        }),
{
}

/// The source is not live and has no latency. Descriptions are looked up, and all else is as everywhere.
pub proof fn lemma_other_answers<B>(state: State<B>)
    ensures
        state.reply(SrcQuery::Latency) == Reply::Latency(false, ClockTime { nseconds: 0 }, None),
        state.reply(SrcQuery::Caps) is Caps,
        state.reply(SrcQuery::Other) is Default,
{
}

/// All questions can be answered but those for a number of frames that is the largest one.
pub proof fn lemma_what_can_be_answered<B>(state: State<B>, query: SrcQuery)
    ensures
        !state.answerable(query) <==> {
            ||| query == SrcQuery::Position(Format::Default) && state.offset
                == 0xffff_ffff_ffff_ffff
            ||| (query == SrcQuery::Duration(Format::Default) || query == SrcQuery::Seeking(
                Format::Default,
            )) && (state.duration matches Some(duration) && frame_at(duration, state.framerate)
                == 0xffff_ffff_ffff_ffff)
        },
{
}

} // verus!
