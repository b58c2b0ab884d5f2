use ntsc_rs_gst::caps::{Caps, FieldValue, Structure};
use ntsc_rs_gst::clock_time::{ClockTime, Fraction, RAW_MAX, RAW_NONE};
use ntsc_rs_gst::format::{Format, FormattedValue, NO_VALUE};
use ntsc_rs_gst::image_freeze::{
    default_framerate, ActivateAction, ChainAction, EventAction, FinishAction, FlowError,
    FrameTiming, ImageFreeze, LoopAction, LoopEvent, Pad, PadMode, Reply, SeekAction, SeekRequest,
    SendAction, SinkEvent, SinkQuery, SrcEvent, SrcQuery, State,
};
use ntsc_rs_gst::segment::{Rate, Segment};

type BufferTiming = (Option<ClockTime>, Option<ClockTime>, u64);

fn ms(mseconds: u64) -> ClockTime {
    ClockTime::from_mseconds(mseconds)
}

fn rate(value: f64) -> Rate {
    Rate { bits: value.to_bits() }
}

fn time(nseconds: i64) -> FormattedValue {
    FormattedValue { format: Format::Time, value: nseconds }
}

fn frames(count: i64) -> FormattedValue {
    FormattedValue { format: Format::Default, value: count }
}

fn raw_video(framerate: Fraction) -> Caps {
    let mut structure = Structure::new("video/x-raw", "");
    structure.set("format", FieldValue::text("RGBx"));
    structure.set("width", FieldValue::Opaque(16));
    structure.set("height", FieldValue::Opaque(16));
    structure.set("framerate", FieldValue::Fraction(framerate));
    let mut caps = Caps::new(false);
    caps.append_structure(structure);
    caps
}

fn element() -> ImageFreeze<&'static str> {
    let mut freeze = ImageFreeze::new();
    freeze.set_framerate(Fraction { numer: 25, denom: 1 });
    freeze.set_duration(ms(400).nseconds);
    freeze
}

fn started() -> ImageFreeze<&'static str> {
    let mut freeze = element();
    assert_eq!(freeze.src_activatemode(PadMode::Push, true), ActivateAction::Done);
    feed(&mut freeze);
    freeze
}

fn feed(freeze: &mut ImageFreeze<&'static str>) {
    let caps = raw_video(Fraction { numer: 0, denom: 1 });
    assert_eq!(freeze.sink_event(SinkEvent::Caps(caps)), EventAction::Answer(true));
    assert_eq!(freeze.sink_event(SinkEvent::Segment(1)), EventAction::Answer(true));
    let chain = freeze.sink_chain("frame");
    assert_eq!(chain, ChainAction::Start);
    assert_eq!(chain.result(true), FlowError::Eos);
}

/// The segment that a flushing seek to a range leads to.
fn sought(rate: Rate, start: ClockTime, stop: ClockTime, duration: ClockTime) -> Segment {
    Segment {
        flags: 1,
        rate,
        start: Some(start),
        stop: Some(stop),
        time: Some(start),
        position: Some(if rate.is_forward() { start } else { stop }),
        duration: Some(duration),
        ..Segment::new()
    }
}

fn seek(freeze: &mut ImageFreeze<&'static str>, speed: f64, start: ClockTime, stop: ClockTime) {
    let request = SeekRequest {
        rate: rate(speed),
        flush: true,
        segment: false,
        start: time(start.nseconds as i64),
        stop: time(stop.nseconds as i64),
        seqnum: 7,
    };
    assert_eq!(
        freeze.src_event(SrcEvent::Seek(request)),
        EventAction::Seek(SeekAction::Interrupt(true, Some(start), Some(stop)))
    );
    let segment = sought(rate(speed), start, stop, ms(400));
    assert!(freeze.can_seek_to(&segment));
    let outcome = freeze.finish_seek(request, Some(segment));
    assert!(outcome.flush_stop);
    assert!(outcome.answer(true));
}

/// Runs the source task until it ends.
fn play(freeze: &mut ImageFreeze<&'static str>) -> (Vec<FrameTiming>, FinishAction) {
    let mut shown = Vec::new();
    let mut reconfigure = true;
    loop {
        let mut event = LoopEvent::Entered;
        let result = loop {
            assert!(freeze.can_continue(event));
            event = match freeze.src_loop_inner(event) {
                LoopAction::CheckReconfigure => {
                    let event = LoopEvent::Reconfigure(reconfigure);
                    reconfigure = false;
                    event
                }
                LoopAction::PushCaps(caps) => {
                    assert_eq!(caps, raw_video(freeze.framerate()));
                    LoopEvent::CapsPushed(true)
                }
                LoopAction::PushSegment(segment, _) => {
                    assert_eq!(segment, freeze.state.segment);
                    LoopEvent::SegmentPushed
                }
                LoopAction::PushBuffer(timing, last) => {
                    shown.push(timing);
                    LoopEvent::BufferPushed(Ok(()), last)
                }
                LoopAction::Finish(result) => break result,
                action => panic!("unexpected action {action:?}"),
            };
        };
        if let Some(action) = freeze.src_loop(result) {
            return (shown, action);
        }
    }
}

fn run_pipeline(range: Option<(f64, ClockTime, ClockTime)>) -> Vec<BufferTiming> {
    let mut freeze = element();
    assert_eq!(freeze.src_activatemode(PadMode::Push, true), ActivateAction::Done);
    if let Some((speed, start, stop)) = range {
        seek(&mut freeze, speed, start, stop);
    }
    feed(&mut freeze);
    let (shown, end) = play(&mut freeze);
    assert_eq!(end, FinishAction::Eos(Some(1)));
    shown
        .iter()
        .map(|frame| (Some(frame.pts), Some(frame.duration), frame.offset))
        .collect()
}

#[test]
fn produces_a_finite_stream_with_expected_timestamps() {
    let buffers = run_pipeline(None);
    assert_eq!(buffers.len(), 10);
    for (index, &(pts, duration, offset)) in buffers.iter().enumerate() {
        assert_eq!(pts, Some(ClockTime::from_mseconds(index as u64 * 40)));
        assert_eq!(duration, Some(ClockTime::from_mseconds(40)));
        assert_eq!(offset, index as u64);
    }
}

#[test]
fn clips_a_non_frame_aligned_seek() {
    let buffers = run_pipeline(Some((
        1.0,
        ClockTime::from_mseconds(220),
        ClockTime::from_mseconds(380),
    )));
    assert_eq!(buffers.len(), 5);
    assert_eq!(
        buffers[0],
        (
            Some(ClockTime::from_mseconds(220)),
            Some(ClockTime::from_mseconds(20)),
            5,
        )
    );
    assert_eq!(
        buffers[4],
        (
            Some(ClockTime::from_mseconds(360)),
            Some(ClockTime::from_mseconds(20)),
            9,
        )
    );
}

#[test]
fn supports_reverse_seeks() {
    let buffers = run_pipeline(Some((
        -1.0,
        ClockTime::from_nseconds(0),
        ClockTime::from_mseconds(400),
    )));
    assert_eq!(buffers.len(), 10);
    assert_eq!(
        buffers.first().unwrap().0,
        Some(ClockTime::from_mseconds(360))
    );
    assert_eq!(buffers.last().unwrap().0, Some(ClockTime::from_nseconds(0)));
}

#[test]
fn a_seek_after_the_frame_arrived_restarts_the_task() {
    let mut freeze = started();
    play(&mut freeze);
    let request = SeekRequest {
        rate: rate(1.0),
        flush: true,
        segment: false,
        start: frames(5),
        stop: frames(NO_VALUE),
        seqnum: 9,
    };
    assert_eq!(
        freeze.perform_seek(request),
        SeekAction::Interrupt(true, Some(ms(200)), None)
    );
    assert!(freeze.state.flushing);
    let mut segment = sought(rate(1.0), ms(200), ms(400), ms(400));
    segment.stop = None;
    let outcome = freeze.finish_seek(request, Some(segment));
    assert!(outcome.start_task);
    assert_eq!(outcome.segment_start, None);
    assert!(!outcome.answer(false));
    assert_eq!(freeze.state.segment.stop, Some(ms(400)));
    let (shown, end) = play(&mut freeze);
    assert_eq!(shown.len(), 5);
    assert_eq!(shown[0].pts, ms(200));
    assert!(shown[0].discont);
    assert!(!shown[1].discont);
    assert_eq!(shown[4].offset_end, 10);
    assert_eq!(end, FinishAction::Eos(Some(9)));
}

#[test]
fn a_segment_seek_announces_the_end_of_the_segment() {
    for (speed, position) in [(1.0, ms(400)), (-1.0, ms(40))] {
        let mut freeze = started();
        let request = SeekRequest {
            rate: rate(speed),
            flush: false,
            segment: true,
            start: time(40_000_000),
            stop: time(NO_VALUE),
            seqnum: 3,
        };
        assert_eq!(
            freeze.perform_seek(request),
            SeekAction::Interrupt(false, Some(ms(40)), None)
        );
        assert!(!freeze.state.flushing);
        let mut segment = sought(rate(speed), ms(40), ms(400), ms(400));
        segment.flags = 8;
        let outcome = freeze.finish_seek(request, Some(segment));
        assert!(!outcome.flush_stop);
        assert_eq!(outcome.segment_start, Some(segment.position));
        let (_, end) = play(&mut freeze);
        assert_eq!(end, FinishAction::SegmentDone(Some(position)));
    }
}

#[test]
fn a_seek_leads_to_a_segment_in_order_within_the_duration() {
    let freeze = started();
    let segment = sought(rate(1.0), ms(100), ms(200), ms(400));
    assert!(freeze.can_seek_to(&segment));
    assert!(freeze.can_seek_to(&Segment { stop: None, ..segment }));
    assert!(freeze.can_seek_to(&Segment { start: None, ..segment }));
    assert!(!freeze.can_seek_to(&Segment { stop: Some(ms(99)), ..segment }));
    assert!(!freeze.can_seek_to(&Segment { start: Some(ms(401)), stop: None, ..segment }));
    assert!(!freeze.can_seek_to(&Segment { duration: None, ..segment }));
    assert!(!freeze.can_seek_to(&Segment { duration: Some(ms(500)), ..segment }));
    let reserved = Some(ClockTime { nseconds: RAW_NONE });
    assert!(!freeze.can_seek_to(&Segment { start: None, stop: reserved, ..segment }));
}

#[test]
fn a_refused_seek_changes_nothing() {
    let mut freeze = started();
    let segment = freeze.state.segment;
    let request = SeekRequest {
        rate: rate(0.0),
        flush: true,
        segment: false,
        start: time(0),
        stop: time(NO_VALUE),
        seqnum: 3,
    };
    let bytes = FormattedValue { format: Format::Bytes, value: 0 };
    let refused = [
        request,
        SeekRequest { rate: rate(-0.0), ..request },
        SeekRequest { rate: rate(1.0), start: bytes, ..request },
        SeekRequest { rate: rate(1.0), stop: bytes, ..request },
        SeekRequest { rate: rate(1.0), start: frames(-2), ..request },
    ];
    for request in refused {
        assert_eq!(freeze.perform_seek(request), SeekAction::Refuse);
        assert!(!freeze.state.flushing);
        assert_eq!(freeze.state.segment, segment);
        assert_eq!(freeze.state.seqnum, Some(1));
    }
}

#[test]
fn no_seek_passes_the_duration() {
    let request = SeekRequest {
        rate: rate(1.0),
        flush: true,
        segment: false,
        start: time(0),
        stop: time(NO_VALUE),
        seqnum: 3,
    };
    for (stop, end) in [(None, ms(400)), (Some(ms(500)), ms(400)), (Some(ms(300)), ms(300))] {
        let mut freeze = started();
        let segment = Segment { stop, ..sought(rate(1.0), ms(0), ms(400), ms(400)) };
        freeze.finish_seek(request, Some(segment));
        assert_eq!(freeze.state.segment.stop, Some(end));
        assert_eq!(freeze.state.segment.duration, Some(ms(400)));
    }
}

#[test]
fn a_failed_seek_keeps_the_segment() {
    let mut freeze = started();
    let segment = freeze.state.segment;
    let request = SeekRequest {
        rate: rate(1.0),
        flush: true,
        segment: true,
        start: time(300_000_000),
        stop: time(100_000_000),
        seqnum: 3,
    };
    assert_eq!(
        freeze.perform_seek(request),
        SeekAction::Interrupt(true, Some(ms(300)), Some(ms(100)))
    );
    let outcome = freeze.finish_seek(request, None);
    assert!(outcome.flush_stop);
    assert!(!outcome.answer(true));
    assert!(!outcome.start_task);
    assert_eq!(outcome.segment_start, None);
    assert_eq!(freeze.state.segment, segment);
    assert_eq!(freeze.state.seqnum, Some(3));
    assert!(freeze.state.need_segment);
    assert!(!freeze.state.flushing);
}

#[test]
fn frames_cover_a_segment_without_gaps() {
    let mut freeze = element();
    freeze.set_framerate(Fraction { numer: 30000, denom: 1001 });
    freeze.src_activatemode(PadMode::Push, true);
    seek(&mut freeze, 1.0, ms(7), ms(311));
    feed(&mut freeze);
    let (shown, _) = play(&mut freeze);
    assert_eq!(shown[0].pts, ms(7));
    assert_eq!(shown[0].duration, ClockTime::from_nseconds(26_366_666));
    for pair in shown.windows(2) {
        assert_eq!(pair[0].pts.nseconds + pair[0].duration.nseconds, pair[1].pts.nseconds);
        assert_eq!(pair[0].offset + 1, pair[1].offset);
    }
    let last = shown.last().unwrap();
    assert_eq!(last.pts.nseconds + last.duration.nseconds, ms(311).nseconds);
}

#[test]
fn reverse_frames_cover_a_segment_without_gaps() {
    let mut freeze = element();
    freeze.set_framerate(Fraction { numer: 30000, denom: 1001 });
    freeze.src_activatemode(PadMode::Push, true);
    seek(&mut freeze, -2.0, ms(7), ms(311));
    feed(&mut freeze);
    let (shown, _) = play(&mut freeze);
    let first = shown[0];
    assert_eq!(first.pts.nseconds + first.duration.nseconds, ms(311).nseconds);
    for pair in shown.windows(2) {
        assert_eq!(pair[1].pts.nseconds + pair[1].duration.nseconds, pair[0].pts.nseconds);
        assert_eq!(pair[1].offset + 1, pair[0].offset);
    }
    assert_eq!(shown.last().unwrap().pts, ms(7));
}

#[test]
fn an_unlimited_stream_goes_on() {
    let mut freeze = started();
    freeze.set_duration(RAW_NONE);
    assert_eq!(freeze.duration(), RAW_NONE);
    freeze.src_loop_inner(LoopEvent::CapsPushed(true));
    for index in 0..1000u64 {
        match freeze.src_loop_inner(LoopEvent::SegmentPushed) {
            LoopAction::PushBuffer(timing, last) => {
                assert_eq!(timing.pts, ms(index * 40));
                assert!(!last);
            }
            action => panic!("unexpected action {action:?}"),
        }
    }
}

#[test]
fn a_frame_past_the_largest_time_cannot_be_shown() {
    // At one frame per nanosecond, the last frame starts at the reserved value.
    let mut freeze: ImageFreeze<()> = ImageFreeze::new();
    freeze.set_framerate(Fraction { numer: 1_000_000_000, denom: 1 });
    freeze.state.need_segment = false;
    freeze.state.offset = u64::MAX - 2;
    assert!(freeze.can_continue(LoopEvent::Reconfigure(false)));
    freeze.state.offset = u64::MAX - 1;
    assert!(!freeze.can_continue(LoopEvent::Reconfigure(false)));
    assert!(!freeze.can_continue(LoopEvent::CapsPushed(true)));
    assert!(!freeze.can_continue(LoopEvent::SegmentPushed));
    assert!(freeze.can_continue(LoopEvent::Entered));
    assert!(freeze.can_continue(LoopEvent::Reconfigure(true)));
    // With an end, what is shown of the frame has one, too.
    freeze.state.segment.stop = Some(ClockTime::from_nseconds(RAW_MAX));
    freeze.state.offset = u64::MAX - 1;
    assert!(freeze.can_continue(LoopEvent::SegmentPushed));
}

#[test]
fn the_position_follows_the_frames() {
    let mut freeze = started();
    assert_eq!(
        freeze.src_query(SrcQuery::Position(Format::Time)),
        Reply::PositionTime(Some(ms(0)))
    );
    freeze.src_loop_inner(LoopEvent::CapsPushed(true));
    freeze.src_loop_inner(LoopEvent::SegmentPushed);
    freeze.src_loop_inner(LoopEvent::Reconfigure(false));
    assert_eq!(
        freeze.src_query(SrcQuery::Position(Format::Time)),
        Reply::PositionTime(Some(ms(80)))
    );
    assert_eq!(
        freeze.src_query(SrcQuery::Position(Format::Default)),
        Reply::PositionFrames(2)
    );
}

#[test]
fn queries_are_answered_in_time_and_frames() {
    let freeze = started();
    let queries = [
        (SrcQuery::Duration(Format::Time), Reply::DurationTime(Some(ms(400)))),
        (SrcQuery::Duration(Format::Default), Reply::DurationFrames(Some(10))),
        (SrcQuery::Duration(Format::Percent), Reply::Refuse),
        (SrcQuery::Position(Format::Buffers), Reply::Refuse),
        (SrcQuery::Seeking(Format::Time), Reply::SeekingTime(Some(ms(400)))),
        (SrcQuery::Seeking(Format::Default), Reply::SeekingFrames(Some(10))),
        (SrcQuery::Seeking(Format::Undefined), Reply::Refuse),
        (SrcQuery::Latency, Reply::Latency(false, ms(0), None)),
        (SrcQuery::Caps, Reply::Caps),
        (SrcQuery::Other, Reply::Default),
        (
            SrcQuery::Convert(frames(3), Format::Time),
            Reply::Convert(frames(3), time(120_000_000)),
        ),
        (SrcQuery::Convert(frames(3), Format::Bytes), Reply::Refuse),
    ];
    for (query, reply) in queries {
        assert!(freeze.can_answer(query));
        assert_eq!(freeze.src_query(query), reply);
    }
    assert_eq!(freeze.sink_query(SinkQuery::Caps), Reply::Caps);
    assert_eq!(freeze.sink_query(SinkQuery::Other), Reply::Default);
}

#[test]
fn the_largest_count_cannot_be_an_answer() {
    let mut freeze = element();
    freeze.set_framerate(Fraction { numer: i32::MAX, denom: 1 });
    freeze.set_duration(RAW_MAX);
    assert!(!freeze.can_answer(SrcQuery::Duration(Format::Default)));
    assert!(!freeze.can_answer(SrcQuery::Seeking(Format::Default)));
    assert!(freeze.can_answer(SrcQuery::Duration(Format::Time)));
    freeze.state.offset = u64::MAX;
    assert!(!freeze.can_answer(SrcQuery::Position(Format::Default)));
}

#[test]
fn values_convert_between_frames_and_times() {
    let freeze = element();
    let none = FormattedValue { format: Format::Percent, value: NO_VALUE };
    assert_eq!(freeze.convert_value(time(119_999_999), Format::Default), Some(frames(2)));
    assert_eq!(freeze.convert_value(time(120_000_000), Format::Default), Some(frames(3)));
    assert_eq!(freeze.convert_value(frames(3), Format::Time), Some(time(120_000_000)));
    assert_eq!(freeze.convert_value(frames(-7), Format::Default), Some(frames(-7)));
    assert_eq!(freeze.convert_value(frames(-7), Format::Time), None);
    assert_eq!(freeze.convert_value(time(-7), Format::Default), None);
    assert_eq!(freeze.convert_value(none, Format::Time), Some(time(NO_VALUE)));
    assert_eq!(freeze.convert_value(frames(i64::MAX), Format::Time), None);
}

#[test]
fn seek_bounds_come_as_times_or_frames() {
    let freeze = element();
    assert_eq!(
        freeze.seek_start_stop(time(5), time(NO_VALUE)),
        Some((Some(ClockTime::from_nseconds(5)), None))
    );
    assert_eq!(
        freeze.seek_start_stop(frames(5), frames(10)),
        Some((Some(ms(200)), Some(ms(400))))
    );
    assert_eq!(
        freeze.seek_start_stop(frames(5), time(10)),
        Some((Some(ms(200)), Some(ClockTime::from_nseconds(10))))
    );
    assert_eq!(freeze.seek_start_stop(time(5), frames(10)), None);
    // Read as unsigned, a negative time is a late one.
    assert_eq!(
        freeze.seek_start_stop(time(-2), time(NO_VALUE)),
        Some((Some(ClockTime::from_nseconds(RAW_MAX)), None))
    );
}

#[test]
fn one_frame_is_taken() {
    let mut freeze = element();
    assert_eq!(freeze.sink_chain("early"), ChainAction::Refuse(FlowError::Flushing));
    freeze.src_activatemode(PadMode::Push, true);
    assert_eq!(freeze.sink_chain("early"), ChainAction::Refuse(FlowError::NotNegotiated));
    assert_eq!(freeze.state.buffer, None);
    feed(&mut freeze);
    assert_eq!(freeze.sink_chain("late"), ChainAction::Refuse(FlowError::Eos));
    assert_eq!(freeze.state.buffer, Some("frame"));
    assert_eq!(ChainAction::Start.result(false), FlowError::Error);
    assert_eq!(ChainAction::Refuse(FlowError::Flushing).result(true), FlowError::Flushing);
}

#[test]
fn the_first_description_goes_with_the_frame() {
    let mut freeze = started();
    let other = raw_video(Fraction { numer: 50, denom: 1 });
    freeze.sink_event(SinkEvent::Caps(other));
    assert_eq!(freeze.state.buffer_caps, Some(raw_video(Fraction { numer: 0, denom: 1 })));
    assert_eq!(freeze.state.current_caps, Some(raw_video(Fraction { numer: 50, denom: 1 })));
}

#[test]
fn upstream_events_are_handled() {
    let mut freeze = element();
    freeze.src_activatemode(PadMode::Push, true);
    assert_eq!(freeze.sink_event(SinkEvent::Eos(4)), EventAction::Forward(false));
    assert_eq!(freeze.state.seqnum, None);
    feed(&mut freeze);
    assert_eq!(freeze.sink_event(SinkEvent::Eos(4)), EventAction::Answer(true));
    assert_eq!(freeze.state.seqnum, Some(4));
    assert_eq!(freeze.sink_event(SinkEvent::Other(true)), EventAction::Forward(true));
    assert_eq!(freeze.sink_event(SinkEvent::Other(false)), EventAction::Forward(false));
    assert_eq!(freeze.sink_event(SinkEvent::FlushStart), EventAction::Forward(false));
    assert!(freeze.state.flushing);
    assert_eq!(freeze.state.buffer, None);
    assert_eq!(freeze.state.current_caps, None);
    assert_eq!(freeze.state.seqnum, None);
    assert_eq!(freeze.sink_event(SinkEvent::FlushStop), EventAction::Forward(false));
    assert!(!freeze.state.flushing);
}

#[test]
fn downstream_events_are_handled() {
    let mut freeze = started();
    for event in [SrcEvent::Navigation, SrcEvent::Qos, SrcEvent::Latency, SrcEvent::Step] {
        assert_eq!(freeze.src_event(event), EventAction::Answer(true));
    }
    assert_eq!(freeze.src_event(SrcEvent::Other), EventAction::Forward(false));
    assert_eq!(freeze.src_event(SrcEvent::FlushStart), EventAction::Forward(false));
    assert!(freeze.state.flushing);
    assert_eq!(freeze.state.buffer, Some("frame"));
    assert_eq!(freeze.src_event(SrcEvent::FlushStop), EventAction::Forward(false));
    assert!(!freeze.state.flushing);
    assert_eq!(freeze.state.buffer, None);
}

#[test]
fn a_reset_keeps_the_properties() {
    let mut state: State<&'static str> = started().state;
    state.reset_runtime();
    assert_eq!(state.framerate, Fraction { numer: 25, denom: 1 });
    assert_eq!(state.duration, Some(ms(400)));
    assert_eq!(state.segment.stop, Some(ms(400)));
    assert_eq!(state.segment.duration, Some(ms(400)));
    assert_eq!(state.offset, 0);
    assert!(state.flushing);
    assert_eq!(state.buffer, None);
}

#[test]
fn an_end_from_outside_is_final() {
    let mut freeze = started();
    assert_eq!(freeze.send_event(false), SendAction::Default);
    assert!(!freeze.state.direct_eos);
    assert_eq!(freeze.send_event(true), SendAction::PauseAndPush);
    let action = freeze.src_loop_inner(LoopEvent::Entered);
    assert_eq!(action, LoopAction::Pause);
    assert_eq!(action.round_end(), Some(Ok(())));
    assert_eq!(freeze.sink_chain("late"), ChainAction::Refuse(FlowError::Eos));
}

#[test]
fn the_source_task_stops_on_trouble() {
    let mut freeze = element();
    assert_eq!(
        freeze.src_loop_inner(LoopEvent::Entered),
        LoopAction::Finish(Err(FlowError::Flushing))
    );
    freeze.src_activatemode(PadMode::Push, true);
    assert_eq!(
        freeze.src_loop_inner(LoopEvent::Entered),
        LoopAction::Finish(Err(FlowError::Error))
    );
    assert_eq!(
        freeze.src_loop_inner(LoopEvent::Reconfigure(true)),
        LoopAction::Finish(Err(FlowError::NotNegotiated))
    );
    let action = freeze.src_loop_inner(LoopEvent::CapsPushed(false));
    assert_eq!(action, LoopAction::RejectCaps);
    assert_eq!(action.round_end(), Some(Err(FlowError::NotNegotiated)));
    assert_eq!(
        freeze.src_loop_inner(LoopEvent::BufferPushed(Err(FlowError::NotLinked), true)),
        LoopAction::Finish(Err(FlowError::NotLinked))
    );
    assert_eq!(
        freeze.src_loop_inner(LoopEvent::BufferPushed(Ok(()), true)),
        LoopAction::Finish(Err(FlowError::Eos))
    );
    assert_eq!(freeze.src_loop(Ok(())), None);
    assert_eq!(freeze.finish_src_task(FlowError::Flushing), FinishAction::Pause);
    assert_eq!(freeze.finish_src_task(FlowError::NotLinked), FinishAction::Fail);
    assert_eq!(freeze.finish_src_task(FlowError::Eos), FinishAction::Eos(None));
}

#[test]
fn only_some_actions_end_a_round() {
    assert_eq!(LoopAction::Finish(Ok(())).round_end(), Some(Ok(())));
    assert_eq!(
        LoopAction::Finish(Err(FlowError::Eos)).round_end(),
        Some(Err(FlowError::Eos))
    );
    assert_eq!(LoopAction::CheckReconfigure.round_end(), None);
    assert_eq!(LoopAction::PushCaps(Caps::new(true)).round_end(), None);
    assert_eq!(LoopAction::PushSegment(Segment::new(), None).round_end(), None);
}

#[test]
fn the_source_pad_is_switched_on_and_off() {
    let mut freeze = started();
    assert_eq!(freeze.src_activatemode(PadMode::Pull, true), ActivateAction::Refuse);
    assert_eq!(freeze.src_activatemode(PadMode::Inactive, false), ActivateAction::Refuse);
    assert_eq!(freeze.state.buffer, Some("frame"));
    assert_eq!(freeze.src_activatemode(PadMode::Push, false), ActivateAction::StopTask);
    assert!(freeze.state.flushing);
    freeze.src_deactivated(false);
    assert_eq!(freeze.state.buffer, Some("frame"));
    freeze.src_deactivated(true);
    assert_eq!(freeze.state.buffer, None);
}

#[test]
fn descriptions_get_the_framerate() {
    let range = FieldValue::FractionRange(
        Fraction { numer: 0, denom: 1 },
        Fraction { numer: i32::MAX, denom: 1 },
    );
    let freeze = element();
    let peer = raw_video(Fraction { numer: 1, denom: 1 });
    let src = freeze.query_caps(Pad::Src, peer.duplicate());
    assert_eq!(src, raw_video(Fraction { numer: 25, denom: 1 }));
    let sink = freeze.query_caps(Pad::Sink, peer.duplicate());
    assert_eq!(sink.structure(0).get("framerate"), Some(&range));
    assert_eq!(sink.structure(0).get_text("format"), Some("RGBx"));
    assert_eq!(sink.structure(0).fields()[3].name, "framerate");
    let filter = ImageFreeze::<()>::peer_filter(Some(&peer)).unwrap();
    assert_eq!(filter.structure(0).get("framerate"), Some(&range));
    assert_eq!(ImageFreeze::<()>::peer_filter(None), None);
    // Any framerate goes to the end of a structure, the one of the stream stays in its place.
    let mut structure = Structure::new("video/x-raw", "");
    structure.set("framerate", FieldValue::Fraction(Fraction { numer: 1, denom: 1 }));
    structure.set("format", FieldValue::text("RGBx"));
    let mut early = Caps::new(false);
    early.append_structure(structure);
    let src = freeze.query_caps(Pad::Src, early.duplicate());
    assert_eq!(src.structure(0).fields()[0].name, "framerate");
    ImageFreeze::<()>::remove_framerate(&mut early);
    assert_eq!(early.structure(0).fields()[0].name, "format");
    assert_eq!(early.structure(0).fields()[1].name, "framerate");
    assert_eq!(early.structure(0).get("framerate"), Some(&range));
    // A structure without a framerate gets one, too.
    let mut bare = Caps::new(false);
    bare.append_structure(Structure::new("video/x-raw", "memory:GLMemory"));
    let output = ImageFreeze::<()>::output_caps(&bare, Fraction { numer: 24, denom: 1 });
    assert_eq!(
        output.structure(0).get("framerate"),
        Some(&FieldValue::Fraction(Fraction { numer: 24, denom: 1 }))
    );
    assert_eq!(output.structure(0).features(), "memory:GLMemory");
    assert!(ImageFreeze::<()>::output_caps(&Caps::new(true), default_framerate()).is_any());
}

#[test]
fn properties_are_read_as_they_were_set() {
    let mut freeze: ImageFreeze<()> = ImageFreeze::new();
    assert_eq!(freeze.framerate(), Fraction { numer: 30, denom: 1 });
    assert_eq!(freeze.framerate(), default_framerate());
    assert_eq!(freeze.duration(), RAW_NONE);
    assert!(!freeze.set_framerate(Fraction { numer: 60, denom: 2 }));
    assert!(freeze.set_framerate(Fraction { numer: 24, denom: 1 }));
    assert_eq!(freeze.framerate(), Fraction { numer: 24, denom: 1 });
    freeze.set_duration(1234);
    assert_eq!(freeze.duration(), 1234);
    assert_eq!(freeze.state.segment.stop, Some(ClockTime::from_nseconds(1234)));
    freeze.set_duration(RAW_NONE);
    assert_eq!(freeze.duration(), RAW_NONE);
    assert_eq!(freeze.state.segment.stop, None);
}
