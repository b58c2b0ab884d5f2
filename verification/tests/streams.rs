use ntsc_rs_gst::caps::{Caps, FieldValue, Structure};
use ntsc_rs_gst::clock_time::{
    frames_for_time, time_for_frame, ClockTime, Fraction, RAW_MAX, RAW_NONE,
};
use ntsc_rs_gst::format::{convert, to_time, Format, FormattedValue};
use ntsc_rs_gst::segment::{Rate, Segment, ONE_BITS};

fn at(nseconds: u64) -> ClockTime {
    ClockTime { nseconds }
}

fn fps(numer: i32, denom: i32) -> Fraction {
    Fraction { numer, denom }
}

fn rate(value: f64) -> Rate {
    Rate { bits: value.to_bits() }
}

fn bounded(start: u64, stop: u64) -> Segment {
    Segment { start: Some(at(start)), stop: Some(at(stop)), ..Segment::new() }
}

#[test]
fn frames_start_at_their_times() {
    assert_eq!(time_for_frame(0, fps(30, 1)), at(0));
    assert_eq!(time_for_frame(1, fps(30, 1)), at(33_333_333));
    assert_eq!(time_for_frame(3, fps(30, 1)), at(100_000_000));
    assert_eq!(time_for_frame(30, fps(30000, 1001)), at(1_001_000_000));
    assert_eq!(time_for_frame(1, fps(1, i32::MAX)), at(2_147_483_647_000_000_000));
    assert_eq!(time_for_frame(u64::MAX, fps(1, 1)), at(RAW_MAX));
    assert_eq!(time_for_frame(u64::MAX, fps(1, 2)), at(RAW_MAX));
    // The product does not fit in 64 bits, the quotient does.
    assert_eq!(time_for_frame(100_000_000_000, fps(1000, 1)), at(100_000_000_000_000_000));
}

#[test]
fn times_fall_into_frames() {
    assert_eq!(frames_for_time(at(0), fps(30, 1)), 0);
    assert_eq!(frames_for_time(at(33_333_333), fps(30, 1)), 0);
    assert_eq!(frames_for_time(at(33_333_334), fps(30, 1)), 1);
    assert_eq!(frames_for_time(at(1_001_000_000), fps(30000, 1001)), 30);
    assert_eq!(frames_for_time(at(RAW_MAX), fps(1, 1)), 18_446_744_073);
    assert_eq!(frames_for_time(at(RAW_MAX), fps(i32::MAX, 1)), u64::MAX);
    assert_eq!(frames_for_time(at(RAW_MAX), fps(1, i32::MAX)), 8);
}

#[test]
fn a_frame_is_shown_when_it_starts_or_the_one_before() {
    for frame in 0..500 {
        let shown = frames_for_time(time_for_frame(frame, fps(30000, 1001)), fps(30000, 1001));
        // Every third frame starts at a whole nanosecond.
        assert_eq!(shown, if frame % 3 == 0 { frame } else { frame - 1 });
        assert_eq!(frames_for_time(time_for_frame(frame, fps(25, 1)), fps(25, 1)), frame);
    }
}

#[test]
fn conversions_return_to_where_they_started() {
    for frame in [0, 1, 2, 30, 12345] {
        let source = FormattedValue { format: Format::Default, value: frame };
        let time = convert(source, Format::Time, fps(25, 1)).unwrap();
        assert_eq!(convert(time, Format::Default, fps(25, 1)), Some(source));
        let time = convert(source, Format::Time, fps(30, 1)).unwrap();
        let back = convert(time, Format::Default, fps(30, 1)).unwrap();
        assert_eq!(back.value, if frame % 3 == 0 { frame } else { frame - 1 });
    }
    let source = FormattedValue { format: Format::Time, value: 50_000_000 };
    let frame = convert(source, Format::Default, fps(30, 1)).unwrap();
    assert_eq!(frame.value, 1);
    assert_eq!(convert(frame, Format::Time, fps(30, 1)).unwrap().value, 33_333_333);
}

#[test]
fn values_are_read_as_times() {
    let value = |value| FormattedValue { format: Format::Time, value };
    assert_eq!(to_time(value(5)), Some(Some(at(5))));
    assert_eq!(to_time(value(-1)), Some(None));
    assert_eq!(to_time(value(-2)), Some(Some(at(RAW_MAX))));
    assert_eq!(to_time(value(i64::MIN)), Some(Some(at(1 << 63))));
    assert_eq!(to_time(FormattedValue { format: Format::Other(9), value: 5 }), None);
}

#[test]
fn rates_have_directions() {
    for value in [0.0, -0.0, 1.0, 0.5, f64::MIN_POSITIVE, 5e-324, f64::INFINITY] {
        assert_eq!(rate(value).is_forward(), value >= 0.0);
        assert_eq!(rate(-value).is_forward(), -value >= 0.0);
        assert_eq!(rate(value).is_reverse(), value < 0.0);
        assert_eq!(rate(-value).is_reverse(), -value < 0.0);
        assert_eq!(rate(value).is_zero(), value == 0.0);
    }
    for value in [f64::NAN, -f64::NAN] {
        assert!(!rate(value).is_forward());
        assert!(!rate(value).is_reverse());
        assert!(!rate(value).is_zero());
    }
    assert_eq!(rate(1.0).bits, ONE_BITS);
}

#[test]
fn a_new_segment_is_unlimited() {
    let segment = Segment::new();
    assert_eq!(segment.start, Some(at(0)));
    assert_eq!(segment.stop, None);
    assert_eq!(segment.rate, rate(1.0));
    assert_eq!(segment.duration, None);
    assert!(!segment.has_segment_flag());
    assert!(Segment { flags: 9, ..segment }.has_segment_flag());
    assert!(!Segment { flags: 1, ..segment }.has_segment_flag());
}

#[test]
fn ranges_are_clipped() {
    let segment = bounded(10, 20);
    assert_eq!(segment.clip(at(12), at(18)), Some((at(12), at(18))));
    assert_eq!(segment.clip(at(5), at(15)), Some((at(10), at(15))));
    assert_eq!(segment.clip(at(15), at(25)), Some((at(15), at(20))));
    assert_eq!(segment.clip(at(5), at(25)), Some((at(10), at(20))));
    assert_eq!(segment.clip(at(5), at(10)), None);
    assert_eq!(segment.clip(at(10), at(10)), Some((at(10), at(10))));
    assert_eq!(segment.clip(at(20), at(25)), None);
    assert_eq!(segment.clip(at(21), at(25)), None);
    assert_eq!(bounded(10, 10).clip(at(10), at(15)), Some((at(10), at(10))));
    assert_eq!(Segment::new().clip(at(5), at(RAW_MAX)), Some((at(5), at(RAW_MAX))));
    let endless = Segment { start: None, ..segment };
    assert_eq!(endless.clip(at(12), at(18)), None);
}

#[test]
fn adjacent_ranges_stay_adjacent() {
    let segment = bounded(10, 20);
    let first = segment.clip(at(5), at(15)).unwrap();
    let second = segment.clip(at(15), at(25)).unwrap();
    assert_eq!(first.1, second.0);
}

#[test]
fn ranges_without_a_bound_are_clipped() {
    let segment = bounded(10, 20);
    assert_eq!(segment.clip(at(12), at(RAW_NONE)), Some((at(12), at(20))));
    assert_eq!(segment.clip(at(RAW_NONE), at(15)), Some((at(RAW_NONE), at(15))));
    assert_eq!(segment.clip(at(21), at(RAW_NONE)), None);
    let endless = Segment { start: None, ..segment };
    assert_eq!(endless.clip(at(12), at(RAW_NONE)), Some((at(RAW_NONE), at(20))));
}

#[test]
fn fractions_are_compared_as_ratios() {
    assert!(fps(30, 1).same(&fps(60, 2)));
    assert!(!fps(30, 1).same(&fps(30000, 1001)));
    assert!(fps(i32::MAX, 1).same(&fps(i32::MAX, 1)));
    assert!(fps(1, 1).is_positive());
    assert!(!fps(0, 1).is_positive());
}

#[test]
fn structures_hold_fields() {
    let mut structure = Structure::new("video/x-raw", "memory:DMABuf");
    assert_eq!(structure.name(), "video/x-raw");
    assert_eq!(structure.features(), "memory:DMABuf");
    structure.set("width", FieldValue::Opaque(1));
    structure.set("format", FieldValue::text("RGBx"));
    structure.set("width", FieldValue::Opaque(2));
    assert_eq!(structure.fields().len(), 2);
    assert_eq!(structure.get("width"), Some(&FieldValue::Opaque(2)));
    assert_eq!(structure.get_text("width"), None);
    assert_eq!(structure.get_text("format"), Some("RGBx"));
    assert_eq!(structure.fields()[0].name, "width");
    let copy = structure.duplicate();
    structure.remove_field("width");
    structure.remove_field("height");
    assert_eq!(structure.get("width"), None);
    assert_eq!(copy.get("width"), Some(&FieldValue::Opaque(2)));
    let mut caps = Caps::new(false);
    caps.append_structure(copy);
    caps.structure_mut(0).remove_field("format");
    assert_eq!(caps.size(), 1);
    assert_eq!(caps.structure(0).fields().len(), 1);
    assert!(!caps.is_any());
    assert_eq!(caps.duplicate(), caps);
}

#[test]
fn later_frames_start_later() {
    for framerate in [fps(30000, 1001), fps(1_000_000_000, 1), fps(1, 3)] {
        for frame in 0..200 {
            assert!(time_for_frame(frame, framerate).nseconds < time_for_frame(frame + 1, framerate).nseconds);
        }
    }
    // Above one frame per nanosecond, frames can start together.
    assert_eq!(time_for_frame(0, fps(i32::MAX, 1)), time_for_frame(1, fps(i32::MAX, 1)));
}

#[test]
fn a_time_lies_between_its_frame_and_the_next() {
    let framerate = fps(24000, 1001);
    let mut last = 0;
    for step in 0..500 {
        let time = at(step * 7_777_777);
        let frame = frames_for_time(time, framerate);
        assert!(last <= frame);
        assert!(time_for_frame(frame, framerate).nseconds <= time.nseconds);
        assert!(time.nseconds <= time_for_frame(frame + 1, framerate).nseconds);
        last = frame;
    }
}

#[test]
fn the_next_frame_is_later_than_every_time() {
    for framerate in [fps(1, 1), fps(1, i32::MAX), fps(1_000_000_000, 1)] {
        for time in [at(0), at(1), at(1 << 63), at(RAW_MAX)] {
            let next = frames_for_time(time, framerate).saturating_add(1);
            assert!(time.nseconds <= time_for_frame(next, framerate).nseconds);
        }
    }
    // Past the largest frame count, it is not.
    let fast = fps(i32::MAX, 1);
    assert!(time_for_frame(u64::MAX, fast).nseconds < RAW_MAX);
}
