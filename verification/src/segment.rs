//! The part of a stream that is played, and how fast.

use crate::clock_time::{defined_or_none, ClockTime, RAW_NONE};
use vstd::prelude::*;

verus! {

/// The bit that tells whether the end of a segment is announced as such instead of as the end of
/// the stream.
pub const SEGMENT_FLAG_SEGMENT: u32 = 8;

/// The sign bit of a double-precision number.
pub const SIGN_BIT: u64 = 0x8000_0000_0000_0000;

/// Infinity as a double-precision number. Without their sign, the patterns above it are not numbers.
pub const INFINITY_BITS: u64 = 0x7ff0_0000_0000_0000;

/// One as a double-precision number.
pub const ONE_BITS: u64 = 0x3ff0_0000_0000_0000;

/// A playback rate, as the bit pattern of a double-precision number.
#[derive(Clone, Copy, PartialEq, Eq, Structural, Debug)]
pub struct Rate {
    pub bits: u64,
}

impl Rate {
    /// The bit pattern without its sign.
    pub open spec fn magnitude(self) -> int {
        if self.bits >= SIGN_BIT {
            self.bits - SIGN_BIT
        } else {
            self.bits as int
        }
    }

    /// The pattern is a number.
    pub open spec fn number(self) -> bool {
        self.magnitude() <= INFINITY_BITS
    }

    /// Neither above nor below zero: both zeros are.
    pub open spec fn zero(self) -> bool {
        self.magnitude() == 0
    }

    /// A number that is zero or above.
    pub open spec fn forward(self) -> bool {
        self.number() && (self.bits < SIGN_BIT || self.zero())
    }

    /// A number below zero.
    pub open spec fn reverse(self) -> bool {
        self.number() && self.bits >= SIGN_BIT && !self.zero()
    }

    /// Whether the rate is zero.
    pub fn is_zero(&self) -> (r: bool)
        ensures
            r == self.zero(),
    {
        self.bits == 0 || self.bits == SIGN_BIT
    }

    /// Whether the rate is zero or above. A pattern that is not a number is not.
    pub fn is_forward(&self) -> (r: bool)
        ensures
            r == self.forward(),
    {
        self.bits <= INFINITY_BITS || self.bits == SIGN_BIT
    }

    /// Whether the rate is below zero. A pattern that is not a number is not.
    pub fn is_reverse(&self) -> (r: bool)
        ensures
            r == self.reverse(),
    {
        self.bits > SIGN_BIT && self.bits - SIGN_BIT <= INFINITY_BITS
    }
}

/// A number is played forward or in reverse, and never both; what is not a number is neither.
pub proof fn lemma_rate_directions(rate: Rate)
    ensures
        !(rate.forward() && rate.reverse()),
        rate.number() <==> rate.forward() || rate.reverse(),
        rate.zero() ==> rate.forward(),
{
}

/// A range of stream times with its playback rate and the position reached in it.
#[derive(Clone, Copy, PartialEq, Eq, Structural, Debug)]
pub struct Segment {
    pub flags: u32,
    pub rate: Rate,
    pub applied_rate: Rate,
    pub base: Option<ClockTime>,
    pub offset: Option<ClockTime>,
    pub start: Option<ClockTime>,
    pub stop: Option<ClockTime>,
    pub time: Option<ClockTime>,
    pub position: Option<ClockTime>,
    pub duration: Option<ClockTime>,
}

/// The later of two times.
pub open spec fn later(a: ClockTime, b: ClockTime) -> ClockTime {
    if a.nseconds >= b.nseconds {
        a
    } else {
        b
    }
}

/// The earlier of two times.
pub open spec fn earlier(a: ClockTime, b: ClockTime) -> ClockTime {
    if a.nseconds <= b.nseconds {
        a
    } else {
        b
    }
}

impl Segment {
    /// A segment that begins at zero, has no end, and is played at normal speed.
    pub open spec fn initial() -> Segment {
        let zero = Some(ClockTime { nseconds: 0 });
        let one = Rate { bits: ONE_BITS };
        Segment {
            flags: 0,
            rate: one,
            applied_rate: one,
            base: zero,
            offset: zero,
            start: zero,
            stop: None,
            time: zero,
            position: zero,
            duration: None,
        }
    }

    /// The bounds that are present are times, and the start is not after the stop.
    pub open spec fn ordered(self) -> bool {
        &&& defined_or_none(self.start)
        &&& defined_or_none(self.stop)
        &&& (self.start matches Some(start) ==> self.stop matches Some(stop) ==> start.nseconds
            <= stop.nseconds)
    }

    /// The end of the segment is announced as such.
    pub open spec fn announces_segment_done(self) -> bool {
        self.flags & SEGMENT_FLAG_SEGMENT == SEGMENT_FLAG_SEGMENT
    }

    /// `from` lies past the end of the segment. The end itself does, unless the segment is one
    /// point. What has no beginning does not.
    pub open spec fn ends_before(self, from: ClockTime) -> bool {
        from.defined() && (self.stop matches Some(stop) && (from.nseconds > stop.nseconds || (
        self.start != self.stop && from == stop)))
    }

    /// What ends at `to` ends before the segment begins. What ends at its start does, unless it is
    /// one point. Without a start, everything does that has an end.
    pub open spec fn begins_after(self, from: ClockTime, to: ClockTime) -> bool {
        to.defined() && match self.start {
            Some(start) => to.nseconds < start.nseconds || (from != to && to == start),
            None => true,
        }
    }

    /// The part of `from..to` that lies in the segment. A bound that is not defined leaves the part
    /// without a beginning, or has it end where the segment ends.
    pub open spec fn clipped(self, from: ClockTime, to: ClockTime) -> Option<
        (ClockTime, ClockTime),
    > {
        if self.ends_before(from) || self.begins_after(from, to) {
            None
        } else {
            Some(
                (
                    match self.start {
                        Some(start) => later(from, start),
                        None => ClockTime { nseconds: RAW_NONE },
                    },
                    match self.stop {
                        Some(stop) => earlier(to, stop),
                        None => to,
                    },
                ),
            )
        }
    }

    /// A segment that begins at zero, has no end, and is played at normal speed.
    pub fn new() -> (r: Self)
        ensures
            r == Segment::initial(),
            r.ordered(),
    {
        let zero = Some(ClockTime { nseconds: 0 });
        let one = Rate { bits: ONE_BITS };
        Segment {
            flags: 0,
            rate: one,
            applied_rate: one,
            base: zero,
            offset: zero,
            start: zero,
            stop: None,
            time: zero,
            position: zero,
            duration: None,
        }
    }

    /// Whether the end of the segment is announced as such.
    pub fn has_segment_flag(&self) -> (r: bool)
        ensures
            r == self.announces_segment_done(),
    {
        self.flags & SEGMENT_FLAG_SEGMENT == SEGMENT_FLAG_SEGMENT
    }

    /// The part of `from..to` that lies in the segment, or `None` if no part does. A bound that holds
    /// the reserved value is not defined.
    pub fn clip(&self, from: ClockTime, to: ClockTime) -> (r: Option<(ClockTime, ClockTime)>)
        ensures
            r == self.clipped(from, to),
    {
        if let Some(stop) = self.stop {
            let one_point = match self.start {
                Some(start) => start.nseconds == stop.nseconds,
                None => false,
            };
            if from.nseconds != RAW_NONE && (from.nseconds > stop.nseconds || (!one_point
                && from.nseconds == stop.nseconds)) {
                return None;
            }
        }
        if to.nseconds != RAW_NONE {
            match self.start {
                Some(start) => {
                    if to.nseconds < start.nseconds || (from.nseconds != to.nseconds && to.nseconds
                        == start.nseconds) {
                        return None;
                    }
                },
                None => return None,
            }
        }
        let clip_start = match self.start {
            Some(start) => if from.nseconds >= start.nseconds {
                from
            } else {
                start
            },
            None => ClockTime { nseconds: RAW_NONE },
        };
        let clip_stop = match self.stop {
            Some(stop) => if to.nseconds <= stop.nseconds {
                to
            } else {
                stop
            },
            None => to,
        };
        Some((clip_start, clip_stop))
    }
}

/// What clipping leaves of a range lies within the range and within the segment, and keeps its
/// bounds in order.
pub proof fn lemma_clip_within(segment: Segment, from: ClockTime, to: ClockTime)
    requires
        segment.ordered(),
        from.nseconds <= to.nseconds,
        segment.clipped(from, to) matches Some((start, stop)) && start.defined() && stop.defined(),
    ensures
        ({
            let (start, stop) = segment.clipped(from, to)->0;
            &&& from.nseconds <= start.nseconds <= stop.nseconds <= to.nseconds
            &&& segment.start->0.nseconds <= start.nseconds
            &&& (segment.stop matches Some(end) ==> stop.nseconds <= end.nseconds)
        }),
{
}

/// A range that lies in the segment is left as it is, unless it only touches the segment's end.
pub proof fn lemma_clip_inside_is_identity(segment: Segment, from: ClockTime, to: ClockTime)
    requires
        segment.start matches Some(start) && start.nseconds <= from.nseconds,
        segment.stop matches Some(stop) ==> to.nseconds <= stop.nseconds,
        from.nseconds < to.nseconds,
    ensures
        segment.clipped(from, to) == Some((from, to)),
{
}

/// Two adjacent ranges that both reach into the segment are still adjacent once clipped.
pub proof fn lemma_clip_keeps_adjacency(
    segment: Segment,
    from: ClockTime,
    mid: ClockTime,
    to: ClockTime,
)
    requires
        from.nseconds <= mid.nseconds <= to.nseconds,
        mid.defined(),
        segment.clipped(from, mid) is Some,
        segment.clipped(mid, to) is Some,
    ensures
        (segment.clipped(from, mid)->0).1 == mid,
        (segment.clipped(mid, to)->0).0 == mid,
{
}

} // verus!
