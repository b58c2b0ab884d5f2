//! Clipping to a segment, playback rates, and what a segment is.

use crate::clock_time::ClockTime;
use crate::segment::{earlier, later, Rate, Segment};
use vstd::prelude::*;

verus! {

/// The moment lies in the range, its end left out.
pub open spec fn in_range(moment: int, from: ClockTime, to: ClockTime) -> bool {
    from.nseconds <= moment < to.nseconds
}

/// The moment lies in the segment, its end left out. A segment without a stop has no end.
pub open spec fn in_segment(moment: int, segment: Segment) -> bool {
    &&& segment.start matches Some(start)
    &&& start.nseconds <= moment
    &&& (segment.stop matches Some(stop) ==> moment < stop.nseconds)
}

/// What clipping leaves of a range is what the range and the segment have in common, with a stop or
/// without one. If they have nothing in common, it leaves nothing or one point.
pub proof fn lemma_clip_is_the_common_part(segment: Segment, from: ClockTime, to: ClockTime)
    requires
        segment.ordered(),
        from.defined(),
        to.defined(),
        from.nseconds < to.nseconds,
    ensures
        forall|moment: int| #[trigger]
            in_range(moment, from, to) && in_segment(moment, segment) <==> (segment.clipped(
                from,
                to,
            ) matches Some((start, stop)) && in_range(moment, start, stop)),
        (exists|moment: int| #[trigger] in_range(moment, from, to) && in_segment(moment, segment))
            ==> segment.clipped(from, to) is Some,
        segment.clipped(from, to) matches Some((start, stop)) ==> start.nseconds <= stop.nseconds,
{
}

/// Where a range overlaps a segment, clipping gives the later start and the earlier stop. Where it does
/// not, it gives nothing.
pub proof fn lemma_clip_of_an_overlap(
    segment: Segment,
    from: ClockTime,
    to: ClockTime,
    start: ClockTime,
)
    requires
        segment.start == Some(start),
        segment.stop matches Some(stop) ==> start.nseconds < stop.nseconds,
        from.defined(),
        to.defined(),
        from.nseconds < to.nseconds,
    ensures
        ({
            let overlap = to.nseconds > start.nseconds && (segment.stop matches Some(stop)
                ==> from.nseconds < stop.nseconds);
            &&& segment.clipped(from, to) is Some <==> overlap
            &&& segment.clipped(from, to) matches Some((a, b)) ==> {
                &&& a.nseconds >= from.nseconds && a.nseconds >= start.nseconds
                &&& a == from || a == start
                &&& b.nseconds <= to.nseconds
                &&& b == to || Some(b) == segment.stop
                &&& (segment.stop matches Some(stop) ==> b.nseconds <= stop.nseconds)
            }
        }),
{
}

/// One point is in a segment from its start up to, but not with, its stop. In a segment of one point, that
/// point is.
pub proof fn lemma_clip_of_a_point(segment: Segment, point: ClockTime, start: ClockTime)
    requires
        segment.ordered(),
        segment.start == Some(start),
        point.defined(),
    ensures
        segment.clipped(point, point) == (if start.nseconds <= point.nseconds && (
        segment.stop matches Some(stop) ==> point.nseconds < stop.nseconds || (point == stop
            && start == stop)) {
            Some((point, point))
        } else {
            None
        }),
{
}

/// A segment of one point takes that point out of every range that begins at it or around it, and of no
/// other.
pub proof fn lemma_clip_to_a_point(segment: Segment, from: ClockTime, to: ClockTime, point: ClockTime)
    requires
        segment.start == Some(point),
        segment.stop == Some(point),
        point.defined(),
        from.defined(),
        to.defined(),
        from.nseconds < to.nseconds,
    ensures
        segment.clipped(from, to) == (if from.nseconds <= point.nseconds < to.nseconds {
            Some((point, point))
        } else {
            None
        }),
{
}

/// Without a start, a segment has nothing in common with a range that has an end.
pub proof fn lemma_clip_without_a_start(segment: Segment, from: ClockTime, to: ClockTime)
    requires
        segment.start is None,
        to.defined(),
    ensures
        segment.clipped(from, to) is None,
{
}

/// A range without an end is clipped to the end of the segment, and one without a beginning stays without
/// one.
pub proof fn lemma_clip_of_an_open_range(
    segment: Segment,
    bound: ClockTime,
    none: ClockTime,
    start: ClockTime,
    stop: ClockTime,
)
    requires
        segment.start == Some(start),
        segment.stop == Some(stop),
        start.nseconds < stop.nseconds,
        start.defined(),
        stop.defined(),
        bound.defined(),
        none.nseconds == 0xffff_ffff_ffff_ffff,
    ensures
        segment.clipped(bound, none) is Some <==> bound.nseconds < stop.nseconds,
        segment.clipped(bound, none) matches Some((a, b)) ==> b == stop && a.nseconds
            >= bound.nseconds && a.nseconds >= start.nseconds && (a == bound || a == start),
        segment.clipped(none, bound) is Some <==> bound.nseconds > start.nseconds,
        segment.clipped(none, bound) matches Some((a, b)) ==> !a.defined() && b.nseconds
            <= bound.nseconds && b.nseconds <= stop.nseconds && (b == bound || b == stop),
{
}

/// In a segment without a stop, a range without an end stays without one, and so does one without a
/// beginning.
pub proof fn lemma_clip_of_an_open_range_without_a_stop(
    segment: Segment,
    bound: ClockTime,
    none: ClockTime,
    start: ClockTime,
)
    requires
        segment.start == Some(start),
        segment.stop is None,
        start.defined(),
        bound.defined(),
        none.nseconds == 0xffff_ffff_ffff_ffff,
    ensures
        segment.clipped(bound, none) matches Some((a, b)) && b == none && a.nseconds
            >= bound.nseconds && a.nseconds >= start.nseconds && (a == bound || a == start),
        segment.clipped(none, none) == Some((none, none)),
        segment.clipped(none, bound) == (if bound.nseconds > start.nseconds {
            Some((none, bound))
        } else {
            None
        }),
{
}

/// A segment of one point takes that point out of a range without an end that has begun by then, and
/// without a start a segment leaves such a range without a beginning.
pub proof fn lemma_clip_of_an_open_range_at_the_edges(
    segment: Segment,
    bound: ClockTime,
    none: ClockTime,
    stop: ClockTime,
)
    requires
        segment.stop == Some(stop),
        stop.defined(),
        bound.defined(),
        none.nseconds == 0xffff_ffff_ffff_ffff,
    ensures
        segment.start == Some(stop) ==> {
            &&& segment.clipped(bound, none) == (if bound.nseconds <= stop.nseconds {
                Some((stop, stop))
            } else {
                None
            })
            &&& segment.clipped(none, bound) == (if bound.nseconds > stop.nseconds {
                Some((none, stop))
            } else {
                None
            })
        },
        segment.start is None ==> {
            &&& segment.clipped(bound, none) == (if bound.nseconds < stop.nseconds {
                Some((none, stop))
            } else {
                None
            })
            &&& segment.clipped(none, none) == Some((none, stop))
        },
        segment.start matches Some(start) ==> segment.clipped(none, none) == Some((none, stop)),
{
}

/// The later and the earlier of two times are both of them, in order.
pub proof fn lemma_later_and_earlier(a: ClockTime, b: ClockTime)
    ensures
        later(a, b).nseconds >= a.nseconds,
        later(a, b).nseconds >= b.nseconds,
        earlier(a, b).nseconds <= a.nseconds,
        earlier(a, b).nseconds <= b.nseconds,
        later(a, b) == a && earlier(a, b) == b || later(a, b) == b && earlier(a, b) == a,
{
}

/// The bit patterns of rates. From zero to infinity, a rate is played forward, and so is the negative
/// zero. Below zero down to the negative infinity, it is played in reverse. The rest are not numbers.
pub proof fn lemma_rate_patterns(rate: Rate)
    ensures
        rate.forward() <==> rate.bits <= 0x7ff0_0000_0000_0000 || rate.bits
            == 0x8000_0000_0000_0000,
        rate.reverse() <==> 0x8000_0000_0000_0000 < rate.bits <= 0xfff0_0000_0000_0000,
        rate.zero() <==> rate.bits == 0 || rate.bits == 0x8000_0000_0000_0000,
        rate.number() <==> rate.bits <= 0x7ff0_0000_0000_0000 || 0x8000_0000_0000_0000 <= rate.bits
            <= 0xfff0_0000_0000_0000,
{
}

/// Turning the sign of a rate turns its direction, unless it is zero.
pub proof fn lemma_opposite_rates(rate: Rate, opposite: Rate)
    requires
        rate.bits < 0x8000_0000_0000_0000,
        opposite.bits == rate.bits + 0x8000_0000_0000_0000,
        !rate.zero(),
    ensures
        rate.forward() <==> opposite.reverse(),
        !rate.reverse(),
        !opposite.forward(),
        rate.number() <==> opposite.number(),
{
}

/// A new segment begins at zero, has no end, and is played at normal speed, with no flag set.
pub proof fn lemma_new_segment()
    ensures
        ({
            let segment = Segment::initial();
            let zero = Some(ClockTime { nseconds: 0 });
            &&& segment.start == zero
            &&& segment.stop is None
            &&& segment.duration is None
            &&& segment.base == zero
            &&& segment.offset == zero
            &&& segment.time == zero
            &&& segment.position == zero
            &&& segment.flags == 0
            &&& segment.rate.bits == 0x3ff0_0000_0000_0000
            &&& segment.applied_rate.bits == 0x3ff0_0000_0000_0000
            &&& segment.rate.forward()
            &&& !segment.announces_segment_done()
        }),
{
    assert(0u32 & 8u32 == 0u32) by (bit_vector);
}

/// One flag decides whether the end of a segment is announced as such.
pub proof fn lemma_segment_flag(segment: Segment)
    ensures
        (Segment { flags: segment.flags | 8, ..segment }).announces_segment_done(),
        !(Segment { flags: segment.flags & !8u32, ..segment }).announces_segment_done(),
        segment.announces_segment_done() ==> segment.flags | 8 == segment.flags,
        !segment.announces_segment_done() ==> segment.flags & !8u32 == segment.flags,
{
    let flags = segment.flags;
    assert((flags | 8u32) & 8u32 == 8u32) by (bit_vector);
    assert((flags & !8u32) & 8u32 == 0u32) by (bit_vector);
    assert(flags & 8u32 == 8u32 ==> flags | 8u32 == flags) by (bit_vector);
    assert(flags & 8u32 != 8u32 ==> flags & !8u32 == flags) by (bit_vector);
}

/// A segment is in order if its bounds are times and its start is not after its stop.
pub proof fn lemma_ordered(segment: Segment)
    ensures
        segment.ordered() <==> {
            &&& (segment.start matches Some(start) ==> start.nseconds != 0xffff_ffff_ffff_ffff)
            &&& (segment.stop matches Some(stop) ==> stop.nseconds != 0xffff_ffff_ffff_ffff)
            &&& (segment.start matches Some(start) ==> segment.stop matches Some(stop)
                ==> start.nseconds <= stop.nseconds)
        },
{
}

} // verus!
