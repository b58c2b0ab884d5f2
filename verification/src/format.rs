//! Values tagged with the unit that they count.

use crate::clock_time::{
    frame_at, frames_for_time, lemma_frame_shown_at_own_start, lemma_shown_frame_has_started,
    representable, starts_exactly, time_for_frame, time_of, ClockTime, Fraction, SECOND,
};
use vstd::prelude::*;

verus! {

/// The raw value that stands for "no value" in every unit.
pub const NO_VALUE: i64 = -1;

/// The unit that a value counts.
#[derive(Clone, Copy, PartialEq, Eq, Structural, Debug)]
pub enum Format {
    Undefined,
    /// Frames, on a video stream.
    Default,
    Bytes,
    /// Nanoseconds.
    Time,
    Buffers,
    Percent,
    /// A unit registered at run time.
    Other(i32),
}

/// A raw value and the unit that it counts.
#[derive(Clone, Copy, PartialEq, Eq, Structural, Debug)]
pub struct FormattedValue {
    pub format: Format,
    pub value: i64,
}

/// A raw value read as 64 unsigned bits.
pub open spec fn as_unsigned(value: i64) -> int {
    if value >= 0 {
        value as int
    } else {
        value + 0x1_0000_0000_0000_0000
    }
}

/// A value as an optional time: its 64 bits are nanoseconds, and all ones are no time.
pub open spec fn raw_time(value: i64) -> Option<ClockTime> {
    if value == NO_VALUE {
        None
    } else {
        Some(ClockTime { nseconds: as_unsigned(value) as u64 })
    }
}

/// A value as an optional time, where its unit is time.
pub open spec fn time_value(value: FormattedValue) -> Option<Option<ClockTime>> {
    if value.format == Format::Time {
        Some(raw_time(value.value))
    } else {
        None
    }
}

/// A count as a value of a unit, where it fits.
pub open spec fn counted(format: Format, count: u64) -> Option<FormattedValue> {
    if count <= i64::MAX {
        Some(FormattedValue { format, value: count as i64 })
    } else {
        None
    }
}

/// What `source` is in the unit `destination`, on a stream of `framerate`.
///
/// Only frames and times convert into each other. A value that is already in the unit stays as it
/// is, and no value is no value in any unit. Negative counts do not convert, nor does what is too
/// large for the result.
pub open spec fn converted(
    source: FormattedValue,
    destination: Format,
    framerate: Fraction,
) -> Option<FormattedValue> {
    if source.format == destination {
        Some(source)
    } else if source.value == NO_VALUE {
        Some(FormattedValue { format: destination, value: NO_VALUE })
    } else if source.value < 0 {
        None
    } else if source.format == Format::Default && destination == Format::Time {
        counted(destination, time_of(source.value as u64, framerate).nseconds)
    } else if source.format == Format::Time && destination == Format::Default {
        counted(destination, frame_at(ClockTime { nseconds: source.value as u64 }, framerate))
    } else {
        None
    }
}

/// The value as an optional time, or `None` if its unit is another one.
pub fn to_time(value: FormattedValue) -> (r: Option<Option<ClockTime>>)
    ensures
        r == time_value(value),
{
    if value.format != Format::Time {
        return None;
    }
    if value.value == NO_VALUE {
        return Some(None);
    }
    let nseconds: u64 = if value.value >= 0 {
        value.value as u64
    } else {
        (value.value as i128 + 0x1_0000_0000_0000_0000) as u64
    };
    Some(Some(ClockTime { nseconds }))
}

fn value_of_count(format: Format, count: u64) -> (r: Option<FormattedValue>)
    ensures
        r == counted(format, count),
{
    if count <= i64::MAX as u64 {
        Some(FormattedValue { format, value: count as i64 })
    } else {
        None
    }
}

/// Converts `source` into the unit `destination`, or returns `None` where it has no value there.
pub fn convert(source: FormattedValue, destination: Format, framerate: Fraction) -> (r: Option<
    FormattedValue,
>)
    requires
        framerate.positive(),
    ensures
        r == converted(source, destination, framerate),
{
    if source.format == destination {
        return Some(source);
    }
    if source.value == NO_VALUE {
        return Some(FormattedValue { format: destination, value: NO_VALUE });
    }
    if source.value < 0 {
        return None;
    }
    match (source.format, destination) {
        (Format::Default, Format::Time) => {
            value_of_count(destination, time_for_frame(source.value as u64, framerate).nseconds)
        },
        (Format::Time, Format::Default) => {
            let time = ClockTime { nseconds: source.value as u64 };
            value_of_count(destination, frames_for_time(time, framerate))
        },
        _ => None,
    }
}

/// An optional time that is read from a value is never the reserved one.
pub proof fn lemma_time_value_defined(value: FormattedValue)
    ensures
        time_value(value) matches Some(Some(time)) ==> time.defined(),
{
}

/// What converts lands in the unit that was asked for.
pub proof fn lemma_converted_format(
    source: FormattedValue,
    destination: Format,
    framerate: Fraction,
)
    ensures
        converted(source, destination, framerate) matches Some(value) ==> value.format
            == destination,
{
}

/// A frame number that is converted to a time and back is the same, unless the time was rounded down; then
/// it is the one before. This holds of rates up to one frame per nanosecond.
pub proof fn lemma_frame_round_trip(frame: i64, framerate: Fraction)
    requires
        framerate.positive(),
        framerate.numer <= framerate.denom * SECOND,
        0 <= frame,
        representable(frame as int, framerate),
        time_of(frame as u64, framerate).nseconds <= i64::MAX,
    ensures
        ({
            let source = FormattedValue { format: Format::Default, value: frame };
            &&& converted(source, Format::Time, framerate) matches Some(time)
            &&& converted(time, Format::Default, framerate) matches Some(back)
            &&& back.format == Format::Default
            &&& back.value == if starts_exactly(frame as int, framerate) {
                frame as int
            } else {
                frame - 1
            }
        }),
{
    lemma_frame_shown_at_own_start(frame as u64, framerate);
}

/// A time that is converted to a frame number and back does not become later.
pub proof fn lemma_time_round_trip(nseconds: i64, framerate: Fraction)
    requires
        framerate.positive(),
        0 <= nseconds,
        frame_at(ClockTime { nseconds: nseconds as u64 }, framerate) <= i64::MAX,
    ensures
        ({
            let source = FormattedValue { format: Format::Time, value: nseconds };
            &&& converted(source, Format::Default, framerate) matches Some(frame)
            &&& converted(frame, Format::Time, framerate) matches Some(back)
            &&& 0 <= back.value <= nseconds
        }),
{
    lemma_shown_frame_has_started(ClockTime { nseconds: nseconds as u64 }, framerate);
}

} // verus!
