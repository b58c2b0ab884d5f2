//! A source that shows one still frame over and over.
//!
//! The element takes one buffer from upstream and turns it into a stream of a fixed framerate, with a
//! duration or without end. It can be seeked, also to play in reverse.
//!
//! The methods take the decisions. Pushing events and buffers, querying peers and running the task is
//! left to the caller, which performs the action that a method returns and reports how it went.

use crate::caps::{Caps, CapsModel, FieldModel, FieldValue};
use crate::clock_time::{
    defined_or_none, following, frame_at, frames_for_time, lemma_time_of_monotonic, representable,
    starts_exactly, time_for_frame, time_of, ClockTime, Fraction, RAW_NONE,
};
use crate::format::{
    convert, converted, time_value, to_time, Format, FormattedValue, NO_VALUE,
};
use crate::segment::{earlier, lemma_clip_within, Rate, Segment};
use vstd::prelude::*;

verus! {

/// The framerate of an element that was not told one.
pub open spec fn initial_framerate() -> Fraction {
    Fraction { numer: 30, denom: 1 }
}

pub fn default_framerate() -> (r: Fraction)
    ensures
        r == initial_framerate(),
{
    Fraction { numer: 30, denom: 1 }
}

/// Why the flow of data stopped.
#[derive(Clone, Copy, PartialEq, Eq, Structural, Debug)]
pub enum FlowError {
    NotLinked,
    Flushing,
    Eos,
    NotNegotiated,
    Error,
    NotSupported,
    CustomError,
    CustomError1,
    CustomError2,
}

/// What an element remembers. The type of the buffers is the caller's.
#[derive(Debug)]
pub struct State<B> {
    pub framerate: Fraction,
    pub duration: Option<ClockTime>,
    pub buffer: Option<B>,
    /// The description that arrived before the buffer.
    pub buffer_caps: Option<Caps>,
    /// The description that arrived last.
    pub current_caps: Option<Caps>,
    pub segment: Segment,
    /// The segment has yet to be announced downstream.
    pub need_segment: bool,
    pub seqnum: Option<u32>,
    /// The number of the next frame.
    pub offset: u64,
    pub flushing: bool,
    /// The stream was ended from outside.
    pub direct_eos: bool,
}

pub open spec fn caps_wf(caps: Option<Caps>) -> bool {
    caps matches Some(caps) ==> caps.wf()
}

/// The segment of an element that has just been started.
pub open spec fn fresh_segment(duration: Option<ClockTime>) -> Segment {
    Segment { stop: duration, duration, ..Segment::initial() }
}

impl<B> State<B> {
    /// The framerate is a rate, the times are times, the segment is in order and knows the duration,
    /// and it stops at the duration or before. The still frame has its description.
    pub open spec fn wf(self) -> bool {
        &&& self.framerate.positive()
        &&& defined_or_none(self.duration)
        &&& self.segment.ordered()
        &&& self.segment.duration == self.duration
        &&& (self.duration matches Some(duration) ==> self.segment.stop matches Some(stop)
            && stop.nseconds <= duration.nseconds)
        &&& self.buffer is Some == self.buffer_caps is Some
        &&& caps_wf(self.buffer_caps)
        &&& caps_wf(self.current_caps)
    }

    /// The state with its segment started anew.
    pub open spec fn with_reset_segment(self) -> State<B> {
        State {
            segment: fresh_segment(self.duration),
            need_segment: true,
            offset: 0,
            seqnum: None,
            ..self
        }
    }

    /// The state with everything forgotten but its properties.
    pub open spec fn with_reset_runtime(self) -> State<B> {
        State {
            buffer: None,
            buffer_caps: None,
            current_caps: None,
            flushing: true,
            direct_eos: false,
            ..self.with_reset_segment()
        }
    }

    /// The state of a new element.
    pub open spec fn initial() -> State<B> {
        State {
            framerate: initial_framerate(),
            duration: None,
            buffer: None,
            buffer_caps: None,
            current_caps: None,
            segment: fresh_segment(None),
            need_segment: true,
            seqnum: None,
            offset: 0,
            flushing: true,
            direct_eos: false,
        }
    }

    pub fn new() -> (r: Self)
        ensures
            r == State::<B>::initial(),
            r.wf(),
    {
        let mut state = State {
            framerate: default_framerate(),
            duration: None,
            buffer: None,
            buffer_caps: None,
            current_caps: None,
            segment: Segment::new(),
            need_segment: true,
            seqnum: None,
            offset: 0,
            flushing: true,
            direct_eos: false,
        };
        state.reset_segment();
        state
    }

    /// Starts the segment anew, to cover the whole duration.
    pub fn reset_segment(&mut self)
        requires
            old(self).framerate.positive(),
            defined_or_none(old(self).duration),
            old(self).buffer is Some == old(self).buffer_caps is Some,
            caps_wf(old(self).buffer_caps),
            caps_wf(old(self).current_caps),
        ensures
            *final(self) == old(self).with_reset_segment(),
            final(self).wf(),
    {
        let mut segment = Segment::new();
        segment.stop = self.duration;
        segment.duration = self.duration;
        self.segment = segment;
        self.need_segment = true;
        self.offset = 0;
        self.seqnum = None;
    }

    /// Forgets everything but the properties, and refuses data until told otherwise.
    pub fn reset_runtime(&mut self)
        requires
            old(self).wf(),
        ensures
            *final(self) == old(self).with_reset_runtime(),
            final(self).wf(),
    {
        self.buffer = None;
        self.buffer_caps = None;
        self.current_caps = None;
        self.reset_segment();
        self.flushing = true;
        self.direct_eos = false;
    }
}

/// The element.
#[derive(Debug)]
pub struct ImageFreeze<B> {
    pub state: State<B>,
}

/// The number before `offset`; zero is preceded by itself.
pub open spec fn preceding(offset: u64) -> u64 {
    if offset > 0 {
        (offset - 1) as u64
    } else {
        0
    }
}

/// The frame with which a segment begins: the one shown at its start, or, unless it is played
/// forward, at its stop.
pub open spec fn first_offset(segment: Segment, framerate: Fraction) -> u64 {
    let edge = if segment.rate.forward() {
        segment.start
    } else {
        segment.stop
    };
    match edge {
        Some(time) => frame_at(time, framerate),
        None => 0,
    }
}

/// The frame after `offset` in the direction of play.
pub open spec fn next_offset(segment: Segment, offset: u64) -> u64 {
    if segment.rate.forward() {
        following(offset)
    } else {
        preceding(offset)
    }
}

/// The part of frame `offset` that lies in the segment.
pub open spec fn frame_clip(segment: Segment, framerate: Fraction, offset: u64) -> Option<
    (ClockTime, ClockTime),
> {
    segment.clipped(time_of(offset, framerate), time_of(following(offset), framerate))
}

/// What is shown of frame `offset`, if anything, is shown from a time to a time.
pub open spec fn frame_defined(segment: Segment, framerate: Fraction, offset: u64) -> bool {
    frame_clip(segment, framerate, offset) matches Some((start, stop)) ==> start.defined()
        && stop.defined()
}

/// The stream ends with frame `offset`: it starts past the stop, or, in reverse, it is the very first
/// frame or ends before the start.
pub open spec fn ends_stream(segment: Segment, framerate: Fraction, offset: u64) -> bool {
    ||| segment.rate.forward() && (segment.stop matches Some(stop) && time_of(
        offset,
        framerate,
    ).nseconds > stop.nseconds)
    ||| segment.rate.reverse() && offset == 0
    ||| segment.rate.reverse() && (segment.start matches Some(start) && time_of(
        following(offset),
        framerate,
    ).nseconds < start.nseconds)
}

/// When and how a copy of the still frame is shown.
#[derive(Clone, Copy, PartialEq, Eq, Structural, Debug)]
pub struct FrameTiming {
    pub pts: ClockTime,
    pub duration: ClockTime,
    pub offset: u64,
    pub offset_end: u64,
    /// The first frame after a jump.
    pub discont: bool,
}

/// The timing of a frame that is shown from `clip.0` to `clip.1`.
pub open spec fn timing(clip: (ClockTime, ClockTime), offset: u64, discont: bool) -> FrameTiming {
    FrameTiming {
        pts: clip.0,
        duration: ClockTime { nseconds: (clip.1.nseconds - clip.0.nseconds) as u64 },
        offset,
        offset_end: following(offset),
        discont,
    }
}

/// What happened in one round of the source task.
#[derive(Clone, Copy, PartialEq, Eq, Debug)]
pub enum LoopEvent {
    /// The round begins.
    Entered,
    /// Whether the output has to be described anew.
    Reconfigure(bool),
    /// Whether downstream took the description.
    CapsPushed(bool),
    /// The segment was announced.
    SegmentPushed,
    /// How pushing the buffer went, and whether it was the last.
    BufferPushed(Result<(), FlowError>, bool),
}

/// What to do next in one round of the source task.
#[derive(Debug, PartialEq, Eq)]
pub enum LoopAction {
    /// End the round.
    Finish(Result<(), FlowError>),
    /// Pause the task and end the round without an error.
    Pause,
    /// Take a reference to the still frame, and find out whether the output has to be described anew.
    CheckReconfigure,
    /// Describe the output.
    PushCaps(Caps),
    /// Ask again for a description next time, and end the round with `NotNegotiated`.
    RejectCaps,
    /// Announce the segment, under the sequence number if there is one.
    PushSegment(Segment, Option<u32>),
    /// Push a copy of the still frame. The flag tells whether it is the last.
    PushBuffer(FrameTiming, bool),
}

/// What a [`LoopAction`] holds.
pub enum LoopModel {
    Finish(Result<(), FlowError>),
    Pause,
    CheckReconfigure,
    PushCaps(CapsModel),
    RejectCaps,
    PushSegment(Segment, Option<u32>),
    PushBuffer(FrameTiming, bool),
}

impl View for LoopAction {
    type V = LoopModel;

    open spec fn view(&self) -> LoopModel {
        match self {
            LoopAction::Finish(result) => LoopModel::Finish(*result),
            LoopAction::Pause => LoopModel::Pause,
            LoopAction::CheckReconfigure => LoopModel::CheckReconfigure,
            LoopAction::PushCaps(caps) => LoopModel::PushCaps(caps@),
            LoopAction::RejectCaps => LoopModel::RejectCaps,
            LoopAction::PushSegment(segment, seqnum) => LoopModel::PushSegment(*segment, *seqnum),
            LoopAction::PushBuffer(timing, last) => LoopModel::PushBuffer(*timing, *last),
        }
    }
}

impl LoopModel {
    /// How the round ends with the action, if it does.
    pub open spec fn ends_round(self) -> Option<Result<(), FlowError>> {
        match self {
            LoopModel::Finish(result) => Some(result),
            LoopModel::Pause => Some(Ok(())),
            LoopModel::RejectCaps => Some(Err(FlowError::NotNegotiated)),
            _ => None,
        }
    }
}

impl LoopAction {
    /// How the round ends with the action, or `None` if it goes on.
    pub fn round_end(&self) -> (r: Option<Result<(), FlowError>>)
        ensures
            r == self@.ends_round(),
    {
        match self {
            LoopAction::Finish(result) => Some(*result),
            LoopAction::Pause => Some(Ok(())),
            LoopAction::RejectCaps => Some(Err(FlowError::NotNegotiated)),
            _ => None,
        }
    }
}

/// The description of the output: the input's, at the framerate of the stream.
pub open spec fn described_at(input: CapsModel, framerate: Fraction) -> CapsModel {
    input.with_field("framerate"@, FieldModel::Fraction(framerate))
}

/// Whether the result ends the round.
pub open spec fn round_result(last: bool) -> Result<(), FlowError> {
    if last {
        Err(FlowError::Eos)
    } else {
        Ok(())
    }
}

impl<B> State<B> {
    /// The state after the frame at its offset.
    pub open spec fn after_frame(self) -> State<B> {
        let position = match frame_clip(self.segment, self.framerate, self.offset) {
            Some((start, stop)) => if self.segment.rate.forward() {
                Some(stop)
            } else {
                Some(start)
            },
            None => self.segment.position,
        };
        State {
            segment: Segment { position, ..self.segment },
            offset: next_offset(self.segment, self.offset),
            ..self
        }
    }

    /// The action for the frame at the offset.
    pub open spec fn frame_action(self, discont: bool) -> LoopModel {
        let last = ends_stream(self.segment, self.framerate, self.offset);
        match frame_clip(self.segment, self.framerate, self.offset) {
            Some(clip) => LoopModel::PushBuffer(timing(clip, self.offset, discont), last),
            None => LoopModel::Finish(round_result(last)),
        }
    }

    /// The state once its segment is announced.
    pub open spec fn after_segment(self) -> State<B> {
        State {
            offset: first_offset(self.segment, self.framerate),
            need_segment: false,
            ..self
        }
    }

    /// With this event, a frame is due.
    pub open spec fn frame_due(self, event: LoopEvent) -> bool {
        match event {
            LoopEvent::Reconfigure(reconfigure) => !reconfigure && !self.need_segment,
            LoopEvent::CapsPushed(taken) => taken && !self.need_segment,
            LoopEvent::SegmentPushed => true,
            _ => false,
        }
    }

    /// What to do once downstream knows the description.
    pub open spec fn described_action(self) -> LoopModel {
        if self.need_segment {
            LoopModel::PushSegment(self.segment, self.seqnum)
        } else {
            self.frame_action(false)
        }
    }

    /// What to do after an event of the source task.
    pub open spec fn loop_action(self, event: LoopEvent) -> LoopModel {
        match event {
            LoopEvent::Entered => if self.flushing {
                LoopModel::Finish(Err(FlowError::Flushing))
            } else if self.direct_eos {
                LoopModel::Pause
            } else if self.buffer is None {
                LoopModel::Finish(Err(FlowError::Error))
            } else {
                LoopModel::CheckReconfigure
            },
            LoopEvent::Reconfigure(reconfigure) => if !reconfigure {
                self.described_action()
            } else {
                match self.buffer_caps {
                    Some(caps) => LoopModel::PushCaps(described_at(caps@, self.framerate)),
                    None => LoopModel::Finish(Err(FlowError::NotNegotiated)),
                }
            },
            LoopEvent::CapsPushed(taken) => if taken {
                self.described_action()
            } else {
                LoopModel::RejectCaps
            },
            LoopEvent::SegmentPushed => self.frame_action(true),
            LoopEvent::BufferPushed(result, last) => match result {
                Err(error) => LoopModel::Finish(Err(error)),
                Ok(_) => LoopModel::Finish(round_result(last)),
            },
        }
    }

    /// The state after an event of the source task.
    pub open spec fn after_loop(self, event: LoopEvent) -> State<B> {
        if self.frame_due(event) {
            self.after_frame()
        } else if self.need_segment && (event == LoopEvent::Reconfigure(false) || event
            == LoopEvent::CapsPushed(true)) {
            self.after_segment()
        } else {
            self
        }
    }
}

impl<B> ImageFreeze<B> {
    pub fn new() -> (r: Self)
        ensures
            r.state == State::<B>::initial(),
            r.state.wf(),
    {
        ImageFreeze { state: State::new() }
    }

    /// The description of the output: the input's, at the framerate of the stream.
    pub fn output_caps(input_caps: &Caps, framerate: Fraction) -> (r: Caps)
        requires
            input_caps.wf(),
        ensures
            r.wf(),
            r@ == described_at(input_caps@, framerate),
    {
        let mut caps = input_caps.duplicate();
        set_framerate_field(&mut caps, FieldValue::Fraction(framerate));
        caps
    }

    /// Whether a round can go on with an event. It cannot where a frame is due that would be shown
    /// from or to no time, which happens only past the largest time.
    pub fn can_continue(&self, event: LoopEvent) -> (r: bool)
        requires
            self.state.wf(),
        ensures
            r == (self.state.frame_due(event) ==> frame_defined(
                self.state.segment,
                self.state.framerate,
                self.state.offset,
            )),
    {
        let due = match event {
            LoopEvent::Reconfigure(reconfigure) => !reconfigure && !self.state.need_segment,
            LoopEvent::CapsPushed(taken) => taken && !self.state.need_segment,
            LoopEvent::SegmentPushed => true,
            _ => false,
        };
        if !due {
            return true;
        }
        let framerate = self.state.framerate;
        let offset: u64 = self.state.offset;
        let from = time_for_frame(offset, framerate);
        let to = time_for_frame(offset.saturating_add(1), framerate);
        match self.state.segment.clip(from, to) {
            Some((start, stop)) => start.nseconds != RAW_NONE && stop.nseconds != RAW_NONE,
            None => true,
        }
    }

    /// One round of the source task: what to do after each event, from `Entered` on.
    pub fn src_loop_inner(&mut self, event: LoopEvent) -> (r: LoopAction)
        requires
            old(self).state.wf(),
            old(self).state.frame_due(event) ==> frame_defined(
                old(self).state.segment,
                old(self).state.framerate,
                old(self).state.offset,
            ),
        ensures
            final(self).state == old(self).state.after_loop(event),
            final(self).state.wf(),
            r@ == old(self).state.loop_action(event),
    {
        match event {
            LoopEvent::Entered => {
                if self.state.flushing {
                    return LoopAction::Finish(Err(FlowError::Flushing));
                }
                if self.state.direct_eos {
                    return LoopAction::Pause;
                }
                match self.state.buffer {
                    None => LoopAction::Finish(Err(FlowError::Error)),
                    Some(_) => LoopAction::CheckReconfigure,
                }
            },
            LoopEvent::Reconfigure(reconfigure) => {
                if !reconfigure {
                    return self.described();
                }
                match &self.state.buffer_caps {
                    None => LoopAction::Finish(Err(FlowError::NotNegotiated)),
                    Some(caps) => LoopAction::PushCaps(
                        Self::output_caps(caps, self.state.framerate),
                    ),
                }
            },
            LoopEvent::CapsPushed(taken) => {
                if taken {
                    self.described()
                } else {
                    LoopAction::RejectCaps
                }
            },
            LoopEvent::SegmentPushed => self.frame(true),
            LoopEvent::BufferPushed(result, last) => match result {
                Err(error) => LoopAction::Finish(Err(error)),
                Ok(_) => LoopAction::Finish(Self::finish_round(last)),
            },
        }
    }

    fn finish_round(last: bool) -> (r: Result<(), FlowError>)
        ensures
            r == round_result(last),
    {
        if last {
            Err(FlowError::Eos)
        } else {
            Ok(())
        }
    }

    /// Announces the segment where that is due, and else shows a frame.
    fn described(&mut self) -> (r: LoopAction)
        requires
            old(self).state.wf(),
            !old(self).state.need_segment ==> frame_defined(
                old(self).state.segment,
                old(self).state.framerate,
                old(self).state.offset,
            ),
        ensures
            final(self).state == (if old(self).state.need_segment {
                old(self).state.after_segment()
            } else {
                old(self).state.after_frame()
            }),
            final(self).state.wf(),
            r@ == old(self).state.described_action(),
    {
        if !self.state.need_segment {
            return self.frame(false);
        }
        let segment = self.state.segment;
        let edge = if segment.rate.is_forward() {
            segment.start
        } else {
            segment.stop
        };
        self.state.offset = match edge {
            Some(time) => frames_for_time(time, self.state.framerate),
            None => 0,
        };
        self.state.need_segment = false;
        LoopAction::PushSegment(segment, self.state.seqnum)
    }

    /// Shows the frame at the offset, and moves on to the next one.
    fn frame(&mut self, discont: bool) -> (r: LoopAction)
        requires
            old(self).state.wf(),
            frame_defined(
                old(self).state.segment,
                old(self).state.framerate,
                old(self).state.offset,
            ),
        ensures
            final(self).state == old(self).state.after_frame(),
            final(self).state.wf(),
            r@ == old(self).state.frame_action(discont),
    {
        let offset: u64 = self.state.offset;
        let framerate = self.state.framerate;
        let rate = self.state.segment.rate;
        let timestamp = time_for_frame(offset, framerate);
        let timestamp_end = time_for_frame(offset.saturating_add(1), framerate);

        let past_stop = match self.state.segment.stop {
            Some(stop) => timestamp.nseconds > stop.nseconds,
            None => false,
        };
        let before_start = match self.state.segment.start {
            Some(start) => timestamp_end.nseconds < start.nseconds,
            None => false,
        };
        let last = (rate.is_forward() && past_stop) || (rate.is_reverse() && offset == 0) || (
        rate.is_reverse() && before_start);

        let clipped = self.state.segment.clip(timestamp, timestamp_end);
        if let Some((clip_start, clip_stop)) = clipped {
            let position = if rate.is_forward() {
                clip_stop
            } else {
                clip_start
            };
            self.state.segment.position = Some(position);
        }
        if rate.is_forward() {
            self.state.offset = self.state.offset.saturating_add(1);
        } else {
            self.state.offset = self.state.offset.saturating_sub(1);
        }

        match clipped {
            Some((clip_start, clip_stop)) => {
                proof {
                    lemma_time_of_monotonic(offset, following(offset), framerate);
                    lemma_clip_within(old(self).state.segment, timestamp, timestamp_end);
                }
                let timing = FrameTiming {
                    pts: clip_start,
                    duration: ClockTime { nseconds: clip_stop.nseconds - clip_start.nseconds },
                    offset,
                    offset_end: offset.saturating_add(1),
                    discont,
                };
                LoopAction::PushBuffer(timing, last)
            },
            None => LoopAction::Finish(Self::finish_round(last)),
        }
    }
}

/// Sets the field `framerate` in every structure.
fn set_framerate_field(caps: &mut Caps, value: FieldValue)
    requires
        old(caps).wf(),
    ensures
        final(caps).wf(),
        final(caps)@ == old(caps)@.with_field("framerate"@, value@),
{
    let ghost before = caps@;
    let size: usize = caps.size();
    let mut i: usize = 0;
    while i < size
        invariant
            caps.wf(),
            size == before.structures.len(),
            i <= size,
            caps@.any == before.any,
            caps@.structures.len() == size,
            forall|j: int|
                0 <= j < size ==> #[trigger] caps@.structures[j] == if j < i {
                    before.with_field("framerate"@, value@).structures[j]
                } else {
                    before.structures[j]
                },
        decreases size - i,
    {
        let structure = caps.structure_mut(i);
        structure.set("framerate", value.duplicate());
        i += 1;
    }
    assert(caps@ =~= before.with_field("framerate"@, value@));
}

/// A request to play another part of the stream, or at another rate.
#[derive(Clone, Copy, PartialEq, Eq, Structural, Debug)]
pub struct SeekRequest {
    pub rate: Rate,
    /// Drop what is on its way.
    pub flush: bool,
    /// Announce the end of the segment as such.
    pub segment: bool,
    pub start: FormattedValue,
    pub stop: FormattedValue,
    pub seqnum: u32,
}

/// How a seek goes on.
#[derive(Clone, Copy, PartialEq, Eq, Debug)]
pub enum SeekAction {
    /// The request is refused.
    Refuse,
    /// Interrupt the stream, and compute the new segment from the old one with these bounds. With the
    /// flag, the stream is interrupted by flushing, and else by pausing the task.
    Interrupt(bool, Option<ClockTime>, Option<ClockTime>),
}

/// What is left to do once a seek has its segment.
#[derive(Clone, Copy, PartialEq, Eq, Debug)]
pub struct SeekOutcome {
    /// Stop flushing.
    pub flush_stop: bool,
    /// The segment was changed as requested.
    pub accepted: bool,
    /// Announce the start of the segment, at this position.
    pub segment_start: Option<Option<ClockTime>>,
    /// Start the source task.
    pub start_task: bool,
}

/// The bounds of a seek as times: given as times or, by their start, as frames.
pub open spec fn seek_bounds(start: FormattedValue, stop: FormattedValue, framerate: Fraction) -> Option<
    (Option<ClockTime>, Option<ClockTime>),
> {
    let (start, stop) = if start.format == Format::Default {
        (converted(start, Format::Time, framerate), converted(stop, Format::Time, framerate))
    } else {
        (Some(start), Some(stop))
    };
    match (start, stop) {
        (Some(start), Some(stop)) => match (time_value(start), time_value(stop)) {
            (Some(start), Some(stop)) => Some((start, stop)),
            _ => None,
        },
        _ => None,
    }
}

/// How a seek begins.
pub open spec fn seek_action(request: SeekRequest, framerate: Fraction) -> SeekAction {
    if request.rate.zero() {
        SeekAction::Refuse
    } else {
        match seek_bounds(request.start, request.stop, framerate) {
            Some((start, stop)) => SeekAction::Interrupt(request.flush, start, stop),
            None => SeekAction::Refuse,
        }
    }
}

/// A segment that seeking in `before` can lead to: its bounds are in order and lie within the
/// duration, which is the same.
pub open spec fn seekable_to(before: Segment, after: Segment) -> bool {
    &&& after.ordered()
    &&& after.duration == before.duration
    &&& (after.start matches Some(start) ==> after.duration matches Some(duration)
        ==> start.nseconds <= duration.nseconds)
}

/// The segment, cut off at the duration if there is one.
pub open spec fn cut_off(segment: Segment, duration: Option<ClockTime>) -> Segment {
    match duration {
        Some(end) => Segment {
            stop: match segment.stop {
                Some(stop) => Some(earlier(stop, end)),
                None => Some(end),
            },
            duration,
            ..segment
        },
        None => segment,
    }
}

impl<B> State<B> {
    /// The state once a seek was interrupted by flushing, or not.
    pub open spec fn after_seek_begun(self, action: SeekAction) -> State<B> {
        match action {
            SeekAction::Interrupt(flush, _, _) => State {
                flushing: self.flushing || flush,
                ..self
            },
            SeekAction::Refuse => self,
        }
    }

    /// The state once a seek led to a segment, or failed to.
    pub open spec fn after_seek(self, seqnum: u32, segment: Option<Segment>) -> State<B> {
        let sought = match segment {
            Some(segment) => segment,
            None => self.segment,
        };
        State {
            segment: cut_off(sought, self.duration),
            need_segment: true,
            seqnum: Some(seqnum),
            flushing: false,
            ..self
        }
    }
}

/// An event from upstream.
#[derive(Debug)]
pub enum SinkEvent {
    Caps(Caps),
    /// The end of the input, with its sequence number.
    Eos(u32),
    /// A segment of the input, with its sequence number.
    Segment(u32),
    FlushStart,
    FlushStop,
    /// Another event. The flag tells whether it sticks to the pad.
    Other(bool),
}

/// An event from downstream.
#[derive(Clone, Copy, PartialEq, Eq, Debug)]
pub enum SrcEvent {
    Navigation,
    Qos,
    Latency,
    Step,
    Seek(SeekRequest),
    FlushStart,
    FlushStop,
    Other,
}

/// What to do with an event.
#[derive(Clone, Copy, PartialEq, Eq, Debug)]
pub enum EventAction {
    /// Give this answer.
    Answer(bool),
    /// Pass the event on, and give the answer of the peer, or with the flag a positive one in any
    /// case.
    Forward(bool),
    /// Go on with the seek.
    Seek(SeekAction),
}

/// What to do with an event sent to the element itself.
#[derive(Clone, Copy, PartialEq, Eq, Structural, Debug)]
pub enum SendAction {
    /// Pause the source task, and push the event downstream.
    PauseAndPush,
    /// Handle it as every element does.
    Default,
}

/// A question from downstream.
#[derive(Clone, Copy, PartialEq, Eq, Structural, Debug)]
pub enum SrcQuery {
    /// What a value is in another unit.
    Convert(FormattedValue, Format),
    Position(Format),
    Duration(Format),
    Seeking(Format),
    Latency,
    Caps,
    Other,
}

/// A question from upstream.
#[derive(Clone, Copy, PartialEq, Eq, Structural, Debug)]
pub enum SinkQuery {
    Caps,
    Other,
}

/// The answer to a question.
#[derive(Clone, Copy, PartialEq, Eq, Debug)]
pub enum Reply {
    /// The question cannot be answered.
    Refuse,
    /// The value, and what it is in the other unit.
    Convert(FormattedValue, FormattedValue),
    PositionTime(Option<ClockTime>),
    PositionFrames(u64),
    DurationTime(Option<ClockTime>),
    DurationFrames(Option<u64>),
    /// Seeking is possible, from zero up to this time.
    SeekingTime(Option<ClockTime>),
    /// Seeking is possible, from zero up to this frame.
    SeekingFrames(Option<u64>),
    /// Whether the source is live, and its least and largest latency.
    Latency(bool, ClockTime, Option<ClockTime>),
    /// The descriptions that the pad accepts.
    Caps,
    /// What every element answers.
    Default,
}

/// The number of frames in a duration.
pub open spec fn frames_in(duration: Option<ClockTime>, framerate: Fraction) -> Option<u64> {
    match duration {
        Some(duration) => Some(frame_at(duration, framerate)),
        None => None,
    }
}

/// The largest count is reserved for "no count": it cannot be an answer.
pub open spec fn countable(count: Option<u64>) -> bool {
    count != Some(u64::MAX)
}

impl<B> State<B> {
    /// The answer to a question counts frames in a number that can be an answer.
    pub open spec fn answerable(self, query: SrcQuery) -> bool {
        match query {
            SrcQuery::Position(Format::Default) => countable(Some(self.offset)),
            SrcQuery::Duration(Format::Default) | SrcQuery::Seeking(Format::Default) => countable(
                frames_in(self.duration, self.framerate),
            ),
            _ => true,
        }
    }

    /// The answer to a question from downstream.
    pub open spec fn reply(self, query: SrcQuery) -> Reply {
        match query {
            SrcQuery::Convert(source, destination) => match converted(
                source,
                destination,
                self.framerate,
            ) {
                Some(value) => Reply::Convert(source, value),
                None => Reply::Refuse,
            },
            SrcQuery::Position(Format::Time) => Reply::PositionTime(self.segment.position),
            SrcQuery::Position(Format::Default) => Reply::PositionFrames(self.offset),
            SrcQuery::Position(_) => Reply::Refuse,
            SrcQuery::Duration(Format::Time) => Reply::DurationTime(self.duration),
            SrcQuery::Duration(Format::Default) => Reply::DurationFrames(
                frames_in(self.duration, self.framerate),
            ),
            SrcQuery::Duration(_) => Reply::Refuse,
            SrcQuery::Seeking(Format::Time) => Reply::SeekingTime(self.duration),
            SrcQuery::Seeking(Format::Default) => Reply::SeekingFrames(
                frames_in(self.duration, self.framerate),
            ),
            SrcQuery::Seeking(_) => Reply::Refuse,
            SrcQuery::Latency => Reply::Latency(false, ClockTime { nseconds: 0 }, None),
            SrcQuery::Caps => Reply::Caps,
            SrcQuery::Other => Reply::Default,
        }
    }
}

/// How data moves through a pad.
#[derive(Clone, Copy, PartialEq, Eq, Structural, Debug)]
pub enum PadMode {
    Inactive,
    Push,
    Pull,
}

/// What to do when the source pad is switched on or off.
#[derive(Clone, Copy, PartialEq, Eq, Structural, Debug)]
pub enum ActivateAction {
    /// The mode is not supported.
    Refuse,
    /// Nothing is left to do.
    Done,
    /// Stop the source task, and report when that is done.
    StopTask,
}

/// One of the two pads.
#[derive(Clone, Copy, PartialEq, Eq, Structural, Debug)]
pub enum Pad {
    Sink,
    Src,
}

/// What to do with a buffer from upstream.
#[derive(Clone, Copy, PartialEq, Eq, Debug)]
pub enum ChainAction {
    /// Refuse it.
    Refuse(FlowError),
    /// It is the still frame: ask for a new description of the output, and start the source task.
    Start,
}

/// How the source task ends.
#[derive(Clone, Copy, PartialEq, Eq, Debug)]
pub enum FinishAction {
    /// Only pause it.
    Pause,
    /// Pause it, and announce the end of the segment at this position.
    SegmentDone(Option<ClockTime>),
    /// Pause it, and announce the end of the stream, under the sequence number if there is one.
    Eos(Option<u32>),
    /// Pause it, report the error, and announce the end of the stream.
    Fail,
}

/// The widest range of framerates.
pub open spec fn any_framerate() -> FieldModel {
    FieldModel::FractionRange(
        Fraction { numer: 0, denom: 1 },
        Fraction { numer: 0x7fff_ffff, denom: 1 },
    )
}

impl<B> State<B> {
    /// What to do with a buffer from upstream.
    pub open spec fn chain_action(self) -> ChainAction {
        if self.direct_eos {
            ChainAction::Refuse(FlowError::Eos)
        } else if self.flushing {
            ChainAction::Refuse(FlowError::Flushing)
        } else if self.buffer is Some {
            ChainAction::Refuse(FlowError::Eos)
        } else if self.current_caps is None {
            ChainAction::Refuse(FlowError::NotNegotiated)
        } else {
            ChainAction::Start
        }
    }

    /// How the source task ends with an error.
    pub open spec fn finish_action(self, error: FlowError) -> FinishAction {
        match error {
            FlowError::Flushing => FinishAction::Pause,
            FlowError::Eos => if self.segment.announces_segment_done() {
                FinishAction::SegmentDone(
                    if self.segment.rate.forward() {
                        self.segment.stop
                    } else {
                        self.segment.start
                    },
                )
            } else {
                FinishAction::Eos(self.seqnum)
            },
            _ => FinishAction::Fail,
        }
    }
}

impl SeekOutcome {
    /// The answer to the request, given whether the source task could be started.
    pub fn answer(&self, started: bool) -> (r: bool)
        ensures
            r == (self.accepted && (self.start_task ==> started)),
    {
        self.accepted && (!self.start_task || started)
    }
}

impl ChainAction {
    /// The reply to upstream, given whether the source task could be started. It is never more data:
    /// one frame is all that is taken.
    pub fn result(&self, started: bool) -> (r: FlowError)
        ensures
            r == match *self {
                ChainAction::Refuse(error) => error,
                ChainAction::Start => if started {
                    FlowError::Eos
                } else {
                    FlowError::Error
                },
            },
    {
        match self {
            ChainAction::Refuse(error) => *error,
            ChainAction::Start => if started {
                FlowError::Eos
            } else {
                FlowError::Error
            },
        }
    }
}

impl<B> ImageFreeze<B> {
    /// Lets every structure of the description have any framerate. The field goes to the end.
    pub fn remove_framerate(caps: &mut Caps)
        requires
            old(caps).wf(),
        ensures
            final(caps).wf(),
            final(caps)@ == old(caps)@.with_last_field("framerate"@, any_framerate()),
    {
        let ghost before = caps@;
        let size: usize = caps.size();
        let mut i: usize = 0;
        while i < size
            invariant
                caps.wf(),
                size == before.structures.len(),
                i <= size,
                caps@.any == before.any,
                caps@.structures.len() == size,
                forall|j: int|
                    0 <= j < size ==> #[trigger] caps@.structures[j] == if j < i {
                        before.with_last_field("framerate"@, any_framerate()).structures[j]
                    } else {
                        before.structures[j]
                    },
            decreases size - i,
        {
            let min = Fraction { numer: 0, denom: 1 };
            let max = Fraction { numer: i32::MAX, denom: 1 };
            let structure = caps.structure_mut(i);
            structure.remove_field("framerate");
            structure.set("framerate", FieldValue::FractionRange(min, max));
            i += 1;
        }
        assert(caps@ =~= before.with_last_field("framerate"@, any_framerate()));
    }

    /// The filter with which to ask the peer of the other pad what it accepts: framerates do not
    /// matter there.
    pub fn peer_filter(filter: Option<&Caps>) -> (r: Option<Caps>)
        requires
            filter matches Some(caps) ==> caps.wf(),
        ensures
            caps_wf(r),
            match (filter, r) {
                (Some(filter), Some(caps)) => caps@ == filter@.with_last_field(
                    "framerate"@,
                    any_framerate(),
                ),
                (None, None) => true,
                _ => false,
            },
    {
        match filter {
            Some(filter) => {
                let mut caps = filter.duplicate();
                Self::remove_framerate(&mut caps);
                Some(caps)
            },
            None => None,
        }
    }

    /// What a pad accepts, from what the peer of the other pad accepts: upstream, any framerate, and
    /// downstream the one of the stream.
    pub fn query_caps(&self, pad: Pad, peer_caps: Caps) -> (r: Caps)
        requires
            peer_caps.wf(),
        ensures
            r.wf(),
            r@ == match pad {
                Pad::Src => described_at(peer_caps@, self.state.framerate),
                Pad::Sink => peer_caps@.with_last_field("framerate"@, any_framerate()),
            },
    {
        let mut caps = peer_caps;
        match pad {
            Pad::Src => set_framerate_field(&mut caps, FieldValue::Fraction(self.state.framerate)),
            Pad::Sink => Self::remove_framerate(&mut caps),
        }
        caps
    }

    /// What `source` is in the unit `destination_format` on this stream.
    pub fn convert_value(&self, source: FormattedValue, destination_format: Format) -> (r: Option<
        FormattedValue,
    >)
        requires
            self.state.wf(),
        ensures
            r == converted(source, destination_format, self.state.framerate),
    {
        convert(source, destination_format, self.state.framerate)
    }

    /// Takes the first buffer after a description as the still frame, and refuses every other.
    pub fn sink_chain(&mut self, buffer: B) -> (r: ChainAction)
        requires
            old(self).state.wf(),
        ensures
            r == old(self).state.chain_action(),
            final(self).state.wf(),
            r == ChainAction::Start ==> {
                let caps = final(self).state.buffer_caps;
                &&& caps is Some
                &&& caps->0@ == old(self).state.current_caps->0@
                &&& final(self).state == (State {
                    buffer: Some(buffer),
                    buffer_caps: caps,
                    ..old(self).state
                })
            },
            r != ChainAction::Start ==> final(self).state == old(self).state,
    {
        if self.state.direct_eos {
            return ChainAction::Refuse(FlowError::Eos);
        }
        if self.state.flushing {
            return ChainAction::Refuse(FlowError::Flushing);
        }
        if self.state.buffer.is_some() {
            return ChainAction::Refuse(FlowError::Eos);
        }
        let caps = match &self.state.current_caps {
            Some(caps) => caps.duplicate(),
            None => return ChainAction::Refuse(FlowError::NotNegotiated),
        };
        self.state.buffer = Some(buffer);
        self.state.buffer_caps = Some(caps);
        ChainAction::Start
    }

    /// Handles an event from upstream.
    pub fn sink_event(&mut self, event: SinkEvent) -> (r: EventAction)
        requires
            old(self).state.wf(),
            event matches SinkEvent::Caps(caps) ==> caps.wf(),
        ensures
            final(self).state.wf(),
            final(self).state == match event {
                SinkEvent::Caps(caps) => State { current_caps: Some(caps), ..old(self).state },
                SinkEvent::Eos(seqnum) => if old(self).state.buffer is None {
                    old(self).state
                } else {
                    State { seqnum: Some(seqnum), ..old(self).state }
                },
                SinkEvent::Segment(seqnum) => State { seqnum: Some(seqnum), ..old(self).state },
                SinkEvent::FlushStart => old(self).state.with_reset_runtime(),
                SinkEvent::FlushStop => State { flushing: false, ..old(self).state },
                SinkEvent::Other(_) => old(self).state,
            },
            r == match event {
                SinkEvent::Caps(_) | SinkEvent::Segment(_) => EventAction::Answer(true),
                SinkEvent::Eos(_) => if old(self).state.buffer is None {
                    EventAction::Forward(false)
                } else {
                    EventAction::Answer(true)
                },
                SinkEvent::FlushStart | SinkEvent::FlushStop => EventAction::Forward(false),
                SinkEvent::Other(sticky) => EventAction::Forward(sticky),
            },
    {
        match event {
            SinkEvent::Caps(caps) => {
                self.state.current_caps = Some(caps);
                EventAction::Answer(true)
            },
            SinkEvent::Eos(seqnum) => {
                if self.state.buffer.is_none() {
                    EventAction::Forward(false)
                } else {
                    self.state.seqnum = Some(seqnum);
                    EventAction::Answer(true)
                }
            },
            SinkEvent::Segment(seqnum) => {
                self.state.seqnum = Some(seqnum);
                EventAction::Answer(true)
            },
            SinkEvent::FlushStart => {
                self.state.reset_runtime();
                EventAction::Forward(false)
            },
            SinkEvent::FlushStop => {
                self.state.flushing = false;
                EventAction::Forward(false)
            },
            SinkEvent::Other(sticky) => EventAction::Forward(sticky),
        }
    }

    /// The bounds of a seek as times, or `None` if they are given in a unit that is not supported.
    pub fn seek_start_stop(&self, start: FormattedValue, stop: FormattedValue) -> (r: Option<
        (Option<ClockTime>, Option<ClockTime>),
    >)
        requires
            self.state.wf(),
        ensures
            r == seek_bounds(start, stop, self.state.framerate),
    {
        let (start, stop) = if start.format == Format::Default {
            match (self.convert_value(start, Format::Time), self.convert_value(stop, Format::Time)) {
                (Some(start), Some(stop)) => (start, stop),
                _ => return None,
            }
        } else {
            (start, stop)
        };
        match (to_time(start), to_time(stop)) {
            (Some(start), Some(stop)) => Some((start, stop)),
            _ => None,
        }
    }

    /// Begins a seek.
    pub fn perform_seek(&mut self, request: SeekRequest) -> (r: SeekAction)
        requires
            old(self).state.wf(),
        ensures
            r == seek_action(request, old(self).state.framerate),
            final(self).state == old(self).state.after_seek_begun(r),
            final(self).state.wf(),
    {
        if request.rate.is_zero() {
            return SeekAction::Refuse;
        }
        match self.seek_start_stop(request.start, request.stop) {
            None => SeekAction::Refuse,
            Some((start, stop)) => {
                if request.flush {
                    self.state.flushing = true;
                }
                SeekAction::Interrupt(request.flush, start, stop)
            },
        }
    }

    /// Whether seeking can lead to this segment.
    pub fn can_seek_to(&self, segment: &Segment) -> (r: bool)
        requires
            self.state.wf(),
        ensures
            r == seekable_to(self.state.segment, *segment),
    {
        let start_defined = match segment.start {
            Some(start) => start.nseconds != RAW_NONE,
            None => true,
        };
        let stop_defined = match segment.stop {
            Some(stop) => stop.nseconds != RAW_NONE,
            None => true,
        };
        let ordered = match (segment.start, segment.stop) {
            (Some(start), Some(stop)) => start.nseconds <= stop.nseconds,
            _ => true,
        };
        let same_duration = match (segment.duration, self.state.segment.duration) {
            (Some(a), Some(b)) => a.nseconds == b.nseconds,
            (None, None) => true,
            _ => false,
        };
        let within = match (segment.start, segment.duration) {
            (Some(start), Some(duration)) => start.nseconds <= duration.nseconds,
            _ => true,
        };
        start_defined && stop_defined && ordered && same_duration && within
    }

    /// Ends a seek, given the segment that the request leads to, or `None` if it leads to none.
    pub fn finish_seek(&mut self, request: SeekRequest, segment: Option<Segment>) -> (r: SeekOutcome)
        requires
            old(self).state.wf(),
        ensures
            final(self).state == old(self).state.after_seek(request.seqnum, segment),
            (segment matches Some(segment) ==> seekable_to(old(self).state.segment, segment))
                ==> final(self).state.wf(),
            r.flush_stop == request.flush,
            r.accepted == (segment is Some),
            r.segment_start == (if segment is Some && request.segment {
                Some(final(self).state.segment.position)
            } else {
                None
            }),
            r.start_task == (segment is Some && old(self).state.buffer is Some),
    {
        let accepted = segment.is_some();
        if let Some(segment) = segment {
            self.state.segment = segment;
        }
        if let Some(duration) = self.state.duration {
            let stop = match self.state.segment.stop {
                Some(stop) => if stop.nseconds <= duration.nseconds {
                    stop
                } else {
                    duration
                },
                None => duration,
            };
            self.state.segment.stop = Some(stop);
            self.state.segment.duration = Some(duration);
        }
        self.state.need_segment = true;
        self.state.seqnum = Some(request.seqnum);
        self.state.flushing = false;
        SeekOutcome {
            flush_stop: request.flush,
            accepted,
            segment_start: if accepted && request.segment {
                Some(self.state.segment.position)
            } else {
                None
            },
            start_task: accepted && self.state.buffer.is_some(),
        }
    }

    /// Handles an event from downstream.
    pub fn src_event(&mut self, event: SrcEvent) -> (r: EventAction)
        requires
            old(self).state.wf(),
        ensures
            final(self).state.wf(),
            final(self).state == match event {
                SrcEvent::Seek(request) => old(self).state.after_seek_begun(
                    seek_action(request, old(self).state.framerate),
                ),
                SrcEvent::FlushStart => State { flushing: true, ..old(self).state },
                SrcEvent::FlushStop => State {
                    flushing: false,
                    ..old(self).state.with_reset_runtime()
                },
                _ => old(self).state,
            },
            r == match event {
                SrcEvent::Navigation | SrcEvent::Qos | SrcEvent::Latency | SrcEvent::Step => {
                    EventAction::Answer(true)
                },
                SrcEvent::Seek(request) => EventAction::Seek(
                    seek_action(request, old(self).state.framerate),
                ),
                SrcEvent::FlushStart | SrcEvent::FlushStop | SrcEvent::Other => {
                    EventAction::Forward(false)
                },
            },
    {
        match event {
            SrcEvent::Navigation | SrcEvent::Qos | SrcEvent::Latency | SrcEvent::Step => {
                EventAction::Answer(true)
            },
            SrcEvent::Seek(request) => EventAction::Seek(self.perform_seek(request)),
            SrcEvent::FlushStart => {
                self.state.flushing = true;
                EventAction::Forward(false)
            },
            SrcEvent::FlushStop => {
                self.state.reset_runtime();
                self.state.flushing = false;
                EventAction::Forward(false)
            },
            SrcEvent::Other => EventAction::Forward(false),
        }
    }

    /// Handles an event sent to the element itself. The end of the stream ends it at once.
    pub fn send_event(&mut self, eos: bool) -> (r: SendAction)
        requires
            old(self).state.wf(),
        ensures
            final(self).state.wf(),
            final(self).state == (State {
                direct_eos: old(self).state.direct_eos || eos,
                ..old(self).state
            }),
            r == (if eos {
                SendAction::PauseAndPush
            } else {
                SendAction::Default
            }),
    {
        if eos {
            self.state.direct_eos = true;
            SendAction::PauseAndPush
        } else {
            SendAction::Default
        }
    }

    /// Answers a question from upstream.
    pub fn sink_query(&self, query: SinkQuery) -> (r: Reply)
        ensures
            r == match query {
                SinkQuery::Caps => Reply::Caps,
                SinkQuery::Other => Reply::Default,
            },
    {
        match query {
            SinkQuery::Caps => Reply::Caps,
            SinkQuery::Other => Reply::Default,
        }
    }

    fn duration_frames(&self) -> (r: Option<u64>)
        requires
            self.state.wf(),
        ensures
            r == frames_in(self.state.duration, self.state.framerate),
    {
        match self.state.duration {
            Some(duration) => Some(frames_for_time(duration, self.state.framerate)),
            None => None,
        }
    }

    /// Whether the question has an answer that can be given.
    pub fn can_answer(&self, query: SrcQuery) -> (r: bool)
        requires
            self.state.wf(),
        ensures
            r == self.state.answerable(query),
    {
        match query {
            SrcQuery::Position(Format::Default) => self.state.offset != u64::MAX,
            SrcQuery::Duration(Format::Default) | SrcQuery::Seeking(Format::Default) => {
                match self.duration_frames() {
                    Some(frames) => frames != u64::MAX,
                    None => true,
                }
            },
            _ => true,
        }
    }

    /// Answers a question from downstream.
    pub fn src_query(&self, query: SrcQuery) -> (r: Reply)
        requires
            self.state.wf(),
            self.state.answerable(query),
        ensures
            r == self.state.reply(query),
    {
        match query {
            SrcQuery::Convert(source, destination) => match self.convert_value(
                source,
                destination,
            ) {
                Some(value) => Reply::Convert(source, value),
                None => Reply::Refuse,
            },
            SrcQuery::Position(format) => match format {
                Format::Time => Reply::PositionTime(self.state.segment.position),
                Format::Default => Reply::PositionFrames(self.state.offset),
                _ => Reply::Refuse,
            },
            SrcQuery::Duration(format) => match format {
                Format::Time => Reply::DurationTime(self.state.duration),
                Format::Default => Reply::DurationFrames(self.duration_frames()),
                _ => Reply::Refuse,
            },
            SrcQuery::Seeking(format) => match format {
                Format::Time => Reply::SeekingTime(self.state.duration),
                Format::Default => Reply::SeekingFrames(self.duration_frames()),
                _ => Reply::Refuse,
            },
            SrcQuery::Latency => Reply::Latency(false, ClockTime { nseconds: 0 }, None),
            SrcQuery::Caps => Reply::Caps,
            SrcQuery::Other => Reply::Default,
        }
    }

    /// Switches the source pad on or off.
    pub fn src_activatemode(&mut self, mode: PadMode, active: bool) -> (r: ActivateAction)
        requires
            old(self).state.wf(),
        ensures
            final(self).state.wf(),
            r == (if mode != PadMode::Push {
                ActivateAction::Refuse
            } else if active {
                ActivateAction::Done
            } else {
                ActivateAction::StopTask
            }),
            final(self).state == match r {
                ActivateAction::Refuse => old(self).state,
                ActivateAction::Done => State {
                    flushing: false,
                    ..old(self).state.with_reset_runtime()
                },
                ActivateAction::StopTask => State { flushing: true, ..old(self).state },
            },
    {
        match mode {
            PadMode::Push => {},
            _ => return ActivateAction::Refuse,
        }
        if active {
            self.state.reset_runtime();
            self.state.flushing = false;
            ActivateAction::Done
        } else {
            self.state.flushing = true;
            ActivateAction::StopTask
        }
    }

    /// Ends switching off the source pad. With the flag, the source task was stopped.
    pub fn src_deactivated(&mut self, stopped: bool)
        requires
            old(self).state.wf(),
        ensures
            final(self).state.wf(),
            final(self).state == (if stopped {
                old(self).state.with_reset_runtime()
            } else {
                old(self).state
            }),
    {
        if stopped {
            self.state.reset_runtime();
        }
    }

    /// Ends the source task after a round that ended with an error.
    pub fn finish_src_task(&self, flow_error: FlowError) -> (r: FinishAction)
        ensures
            r == self.state.finish_action(flow_error),
    {
        match flow_error {
            FlowError::Flushing => FinishAction::Pause,
            FlowError::Eos => {
                let segment = self.state.segment;
                if segment.has_segment_flag() {
                    FinishAction::SegmentDone(
                        if segment.rate.is_forward() {
                            segment.stop
                        } else {
                            segment.start
                        },
                    )
                } else {
                    FinishAction::Eos(self.state.seqnum)
                }
            },
            _ => FinishAction::Fail,
        }
    }

    /// How the source task goes on after a round: `None` if it goes on.
    pub fn src_loop(&self, result: Result<(), FlowError>) -> (r: Option<FinishAction>)
        ensures
            r == match result {
                Ok(_) => None,
                Err(error) => Some(self.state.finish_action(error)),
            },
    {
        match result {
            Ok(_) => None,
            Err(error) => Some(self.finish_src_task(error)),
        }
    }

    /// Sets the framerate. The result tells whether the output has to be described anew.
    pub fn set_framerate(&mut self, framerate: Fraction) -> (r: bool)
        requires
            old(self).state.wf(),
            framerate.positive(),
        ensures
            final(self).state.wf(),
            final(self).state == (State { framerate, ..old(self).state }),
            r == !old(self).state.framerate.same_ratio(framerate),
    {
        let changed = !self.state.framerate.same(&framerate);
        self.state.framerate = framerate;
        changed
    }

    /// Sets the duration in nanoseconds, the largest number meaning that there is none, and starts the
    /// segment anew.
    pub fn set_duration(&mut self, raw_duration: u64)
        requires
            old(self).state.wf(),
        ensures
            final(self).state.wf(),
            final(self).state == (State {
                duration: optional_time(raw_duration),
                ..old(self).state
            }).with_reset_segment(),
    {
        self.state.duration = if raw_duration != RAW_NONE {
            Some(ClockTime { nseconds: raw_duration })
        } else {
            None
        };
        self.state.reset_segment();
    }

    pub fn framerate(&self) -> (r: Fraction)
        ensures
            r == self.state.framerate,
    {
        self.state.framerate
    }

    /// The duration in nanoseconds, the largest number meaning that there is none.
    pub fn duration(&self) -> (r: u64)
        ensures
            r == raw_of(self.state.duration),
    {
        match self.state.duration {
            Some(duration) => duration.nseconds,
            None => RAW_NONE,
        }
    }
}

/// A raw time, the reserved value meaning none.
pub open spec fn optional_time(raw: u64) -> Option<ClockTime> {
    if raw != RAW_NONE {
        Some(ClockTime { nseconds: raw })
    } else {
        None
    }
}

/// The raw value of an optional time.
pub open spec fn raw_of(time: Option<ClockTime>) -> u64 {
    match time {
        Some(time) => time.nseconds,
        None => RAW_NONE,
    }
}

/// Where there is a still frame, there is a description to announce: one that is due is never missing.
pub proof fn lemma_still_frame_has_a_description<B>(state: State<B>)
    requires
        state.wf(),
        state.loop_action(LoopEvent::Entered) == LoopModel::CheckReconfigure,
    ensures
        state.loop_action(LoopEvent::Reconfigure(true)) is PushCaps,
{
}

/// Where downstream refuses the description, the round ends as not negotiated, and the state stays.
pub proof fn lemma_refused_description_ends_the_round<B>(state: State<B>)
    ensures
        state.loop_action(LoopEvent::CapsPushed(false)).ends_round() == Some(
            Err::<(), FlowError>(FlowError::NotNegotiated),
        ),
        state.after_loop(LoopEvent::CapsPushed(false)) == state,
{
}

/// One frame is all that is taken: once there is a still frame, every buffer is refused, and it stays
/// the still frame.
pub proof fn lemma_takes_one_frame<B>(state: State<B>, buffer: B, caps: Option<Caps>)
    requires
        state.chain_action() == ChainAction::Start,
    ensures
        (State { buffer: Some(buffer), buffer_caps: caps, ..state }).chain_action()
            == ChainAction::Refuse(FlowError::Eos),
{
}

/// Starting anew keeps the properties and forgets the rest. From then on buffers are refused and the
/// source task stops, until flushing ends; then a description has to come before a buffer.
pub proof fn lemma_reset_keeps_properties<B>(state: State<B>)
    ensures
        ({
            let reset = state.with_reset_runtime();
            let resumed = State { flushing: false, ..reset };
            &&& reset.framerate == state.framerate
            &&& reset.duration == state.duration
            &&& reset == (State {
                framerate: state.framerate,
                duration: state.duration,
                ..State::<B>::initial()
            }).with_reset_segment()
            &&& reset.with_reset_runtime() == reset
            &&& reset.chain_action() == ChainAction::Refuse(FlowError::Flushing)
            &&& reset.loop_action(LoopEvent::Entered) == LoopModel::Finish(
                Err(FlowError::Flushing),
            )
            &&& resumed.chain_action() == ChainAction::Refuse(FlowError::NotNegotiated)
        }),
{
}

/// Once the stream was ended from outside, buffers are refused, and the source task shows nothing
/// more: it stops while flushing, and else pauses without an error.
pub proof fn lemma_direct_eos_is_final<B>(state: State<B>)
    requires
        state.direct_eos,
    ensures
        state.chain_action() == ChainAction::Refuse(FlowError::Eos),
        state.loop_action(LoopEvent::Entered) == if state.flushing {
            LoopModel::Finish(Err(FlowError::Flushing))
        } else {
            LoopModel::Pause
        },
        !state.flushing ==> state.loop_action(LoopEvent::Entered).ends_round() == Some(
            Ok::<(), FlowError>(()),
        ),
{
}

/// The duration that is read is the one that was set.
pub proof fn lemma_duration_round_trip(raw: u64)
    ensures
        raw_of(optional_time(raw)) == raw,
        defined_or_none(optional_time(raw)),
{
}

/// A seek that is refused changes nothing. One without a rate is refused, and so is one whose bounds
/// are neither times nor frames.
pub proof fn lemma_refused_seek_changes_nothing<B>(state: State<B>, request: SeekRequest)
    ensures
        seek_action(request, state.framerate) == SeekAction::Refuse ==> state.after_seek_begun(
            seek_action(request, state.framerate),
        ) == state,
        request.rate.zero() ==> seek_action(request, state.framerate) == SeekAction::Refuse,
        request.start.format != Format::Time && request.start.format != Format::Default
            ==> seek_action(request, state.framerate) == SeekAction::Refuse,
{
}

/// No seek makes a stream run past its duration, whatever segment it leads to, and whether it leads to one
/// or not. One without a stop ends at the duration.
pub proof fn lemma_no_seek_passes_the_duration<B>(
    state: State<B>,
    seqnum: u32,
    segment: Option<Segment>,
    duration: ClockTime,
)
    requires
        state.duration == Some(duration),
    ensures
        ({
            let after = state.after_seek(seqnum, segment).segment;
            &&& after.stop matches Some(stop) && stop.nseconds <= duration.nseconds
            &&& after.duration == Some(duration)
            &&& (segment matches Some(sought) && sought.stop is None ==> after.stop == Some(
                duration,
            ))
        }),
{
}

/// A seek that fails to lead to a segment leaves the segment as it was.
pub proof fn lemma_failed_seek_keeps_segment<B>(state: State<B>, seqnum: u32)
    requires
        state.wf(),
    ensures
        state.after_seek(seqnum, None).segment == state.segment,
{
}

/// A stream without a stop that is played forward never ends by itself.
pub proof fn lemma_unlimited_stream_never_ends(segment: Segment, framerate: Fraction, offset: u64)
    requires
        segment.rate.forward(),
        segment.stop is None,
    ensures
        !ends_stream(segment, framerate, offset),
{
    crate::segment::lemma_rate_directions(segment.rate);
}

/// A frame that lies in the segment is shown whole, at its own time.
pub proof fn lemma_frame_inside_is_shown_whole<B>(state: State<B>, discont: bool)
    requires
        state.segment.start matches Some(start) && start.nseconds <= time_of(
            state.offset,
            state.framerate,
        ).nseconds,
        state.segment.stop matches Some(stop) ==> time_of(
            following(state.offset),
            state.framerate,
        ).nseconds <= stop.nseconds,
        time_of(state.offset, state.framerate).nseconds < time_of(
            following(state.offset),
            state.framerate,
        ).nseconds,
    ensures
        state.frame_action(discont) matches LoopModel::PushBuffer(frame, _) && {
            &&& frame.pts == time_of(state.offset, state.framerate)
            &&& frame.pts.nseconds + frame.duration.nseconds == time_of(
                following(state.offset),
                state.framerate,
            ).nseconds
            &&& frame.offset == state.offset
            &&& frame.discont == discont
        },
{
}

/// A seek forward to the start of a frame begins with that frame, unless its time was rounded down; then
/// it begins with the one before.
pub proof fn lemma_seek_to_frame<B>(state: State<B>, frame: u64)
    requires
        state.wf(),
        state.framerate.numer <= state.framerate.denom * crate::clock_time::SECOND,
        representable(frame as int, state.framerate),
        state.segment.rate.forward(),
        state.segment.start == Some(time_of(frame, state.framerate)),
    ensures
        state.after_segment().offset == if starts_exactly(frame as int, state.framerate) {
            frame as int
        } else {
            frame - 1
        },
{
    crate::clock_time::lemma_frame_shown_at_own_start(frame, state.framerate);
}

/// A seek to a frame is a seek to the time at which it starts.
pub proof fn lemma_seek_by_frames(frame: i64, framerate: Fraction)
    requires
        framerate.positive(),
        0 <= frame,
        time_of(frame as u64, framerate).nseconds <= i64::MAX,
    ensures
        seek_bounds(
            FormattedValue { format: Format::Default, value: frame },
            FormattedValue { format: Format::Default, value: NO_VALUE },
            framerate,
        ) == Some((Some(time_of(frame as u64, framerate)), None::<ClockTime>)),
{
}

/// Every structure of the output has the framerate of the stream, whatever the input says, and is as the
/// input says otherwise, its fields in the same order. Letting the input have any framerate first makes
/// no difference but for the place of that field.
pub proof fn lemma_descriptions_differ_in_framerate_only(
    input: CapsModel,
    framerate: Fraction,
    i: int,
)
    requires
        0 <= i < input.structures.len(),
    ensures
        ({
            let before = input.structures[i];
            let after = described_at(input, framerate).structures[i];
            &&& after.fields.dom().contains("framerate"@)
            &&& after.fields["framerate"@] == FieldModel::Fraction(framerate)
            &&& after.name == before.name
            &&& after.features == before.features
            &&& before.names.is_prefix_of(after.names)
            &&& forall|name: Seq<char>|
                name != "framerate"@ ==> {
                    &&& (#[trigger] after.fields.dom().contains(name)
                        <==> before.fields.dom().contains(name))
                    &&& after.fields[name] == before.fields[name]
                }
        }),
        ({
            let wide = input.with_last_field("framerate"@, any_framerate());
            let direct = described_at(input, framerate).structures[i];
            let widened = described_at(wide, framerate).structures[i];
            &&& widened.fields == direct.fields
            &&& widened.name == direct.name
            &&& widened.features == direct.features
        }),
{
    let wide = input.with_last_field("framerate"@, any_framerate());
    assert(described_at(wide, framerate).structures[i].fields =~= described_at(
        input,
        framerate,
    ).structures[i].fields);
}

} // verus!
