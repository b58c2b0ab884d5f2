//! Values in frames and in times.

use crate::clock_time::{frame_at, time_of, ClockTime, Fraction};
use crate::format::{converted, time_value, Format, FormattedValue};
use crate::laws::timing::{lemma_frame_starts_after_those_before, lemma_whole_frames_have_passed};
use vstd::prelude::*;

verus! {

/// What is in the unit already stays as it is, whatever the unit, and no value is no value in every unit.
pub proof fn lemma_nothing_to_convert(source: FormattedValue, unit: Format, framerate: Fraction)
    ensures
        converted(source, source.format, framerate) == Some(source),
        source.value == -1 ==> (converted(source, unit, framerate) matches Some(value)
            && value.format == unit && value.value == -1),
{
}

/// Between different units, only frames and times convert, and only those that are not negative.
pub proof fn lemma_only_frames_and_times_convert(
    source: FormattedValue,
    unit: Format,
    framerate: Fraction,
)
    requires
        source.format != unit,
        source.value != -1,
    ensures
        source.value < 0 ==> converted(source, unit, framerate) is None,
        !(source.format == Format::Default && unit == Format::Time) && !(source.format
            == Format::Time && unit == Format::Default) ==> converted(source, unit, framerate)
            is None,
{
}

/// A frame converts to the time at which it starts, rounded down, if that time can be a value.
pub proof fn lemma_frame_to_time(frame: i64, framerate: Fraction)
    requires
        framerate.positive(),
        0 <= frame,
    ensures
        ({
            let source = FormattedValue { format: Format::Default, value: frame };
            let units = frame * framerate.denom;
            let held = if units <= 0xffff_ffff_ffff_ffffint {
                units
            } else {
                0xffff_ffff_ffff_ffffint
            };
            match converted(source, Format::Time, framerate) {
                Some(time) => {
                    &&& time.format == Format::Time
                    &&& 0 <= time.value
                    &&& time.value * framerate.numer <= held * 1_000_000_000 < (time.value + 1)
                        * framerate.numer
                },
                None => held * 1_000_000_000 >= 0x8000_0000_0000_0000int * framerate.numer,
            }
        }),
{
    lemma_frame_starts_after_those_before(frame as u64, framerate);
    let t = time_of(frame as u64, framerate).nseconds as int;
    let n = framerate.numer as int;
    let units = frame * framerate.denom;
    let held = if units <= 0xffff_ffff_ffff_ffffint {
        units
    } else {
        0xffff_ffff_ffff_ffffint
    };
    if held * 1_000_000_000 < 0x1_0000_0000_0000_0000int * n {
        if t > 0x7fff_ffff_ffff_ffffint {
            assert(0x8000_0000_0000_0000int * n <= t * n) by (nonlinear_arith)
                requires
                    0x8000_0000_0000_0000int <= t,
                    0 < n,
            ;
        }
    } else {
        assert(0x8000_0000_0000_0000int * n <= 0x1_0000_0000_0000_0000int * n) by (nonlinear_arith)
            requires
                0 < n,
        ;
    }
}

/// A time converts to the number of frames that have passed, if that number can be a value.
pub proof fn lemma_time_to_frame(nseconds: i64, framerate: Fraction)
    requires
        framerate.positive(),
        0 <= nseconds,
    ensures
        ({
            let source = FormattedValue { format: Format::Time, value: nseconds };
            let length = framerate.denom * 1_000_000_000;
            match converted(source, Format::Default, framerate) {
                Some(frame) => {
                    &&& frame.format == Format::Default
                    &&& 0 <= frame.value
                    &&& frame.value * length <= nseconds * framerate.numer < (frame.value + 1)
                        * length
                },
                None => nseconds * framerate.numer >= 0x8000_0000_0000_0000int * length,
            }
        }),
{
    let time = ClockTime { nseconds: nseconds as u64 };
    lemma_whole_frames_have_passed(time, framerate);
    let length = framerate.denom * 1_000_000_000;
    let f = frame_at(time, framerate) as int;
    if nseconds * framerate.numer < 0x1_0000_0000_0000_0000int * length {
        if f > 0x7fff_ffff_ffff_ffffint {
            assert(0x8000_0000_0000_0000int * length <= f * length) by (nonlinear_arith)
                requires
                    0x8000_0000_0000_0000int <= f,
                    0 < length,
            ;
        }
    } else {
        assert(0x8000_0000_0000_0000int * length <= 0x1_0000_0000_0000_0000int * length)
            by (nonlinear_arith)
            requires
                0 < length,
        ;
    }
}

/// A value in nanoseconds is a time: itself, or, where it is negative, what its bits are without a sign.
/// Minus one is none. Values in other units are no times.
pub proof fn lemma_value_as_time(value: FormattedValue)
    ensures
        value.format != Format::Time <==> time_value(value) is None,
        value.format == Format::Time && value.value == -1 <==> time_value(value) == Some(
            None::<ClockTime>,
        ),
        time_value(value) matches Some(Some(time)) ==> {
            &&& value.value >= 0 ==> time.nseconds == value.value
            &&& value.value < 0 ==> time.nseconds == value.value + 0x1_0000_0000_0000_0000int
        },
{
}

} // verus!
