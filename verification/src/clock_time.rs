//! Stream times, framerates, and the conversion between frame numbers and times.

use muldiv::MulDiv;
use vstd::arithmetic::div_mod::lemma_div_is_ordered;
use vstd::prelude::*;

verus! {

/// Nanoseconds in a second.
pub const SECOND: u64 = 1_000_000_000;

/// Nanoseconds in a millisecond.
pub const MSECOND: u64 = 1_000_000;

/// The raw value that stands for "no time".
pub const RAW_NONE: u64 = 0xffff_ffff_ffff_ffff;

/// The largest time.
pub const RAW_MAX: u64 = 0xffff_ffff_ffff_fffe;

/// A point in a stream, or the distance between two, in nanoseconds.
///
/// The raw value `RAW_NONE` is reserved for "no time": an optional time is written
/// `Option<ClockTime>`, and a time that holds the reserved value is not [`defined`](Self::defined).
#[derive(Clone, Copy, PartialEq, Eq, Structural, Debug)]
pub struct ClockTime {
    pub nseconds: u64,
}

impl ClockTime {
    /// Whether this is a time at all, rather than the reserved value.
    pub open spec fn defined(self) -> bool {
        self.nseconds != RAW_NONE
    }

    pub fn from_nseconds(nseconds: u64) -> (r: Self)
        requires
            nseconds != RAW_NONE,
        ensures
            r.nseconds == nseconds,
    {
        ClockTime { nseconds }
    }

    pub fn from_mseconds(mseconds: u64) -> (r: Self)
        requires
            mseconds * MSECOND <= u64::MAX,
        ensures
            r.nseconds == mseconds * MSECOND,
    {
        ClockTime { nseconds: mseconds * MSECOND }
    }
}

/// Whether an optional time that is present is a time.
pub open spec fn defined_or_none(time: Option<ClockTime>) -> bool {
    time matches Some(t) ==> t.defined()
}

/// A ratio of two integers.
#[derive(Clone, Copy, PartialEq, Eq, Structural, Debug)]
pub struct Fraction {
    pub numer: i32,
    pub denom: i32,
}

impl Fraction {
    /// Both terms are positive: a framerate.
    pub open spec fn positive(self) -> bool {
        self.numer > 0 && self.denom > 0
    }

    /// Both fractions denote the same ratio.
    pub open spec fn same_ratio(self, other: Fraction) -> bool {
        self.numer * other.denom == other.numer * self.denom
    }

    pub fn is_positive(&self) -> (r: bool)
        ensures
            r == self.positive(),
    {
        self.numer > 0 && self.denom > 0
    }

    /// Whether both fractions denote the same ratio.
    pub fn same(&self, other: &Fraction) -> (r: bool)
        ensures
            r == self.same_ratio(*other),
    {
        proof {
            lemma_i32_product(self.numer, other.denom);
            lemma_i32_product(other.numer, self.denom);
        }
        (self.numer as i64) * (other.denom as i64) == (other.numer as i64) * (self.denom as i64)
    }
}

proof fn lemma_i32_product(a: i32, b: i32)
    ensures
        -0x4000_0000_0000_0000 <= a * b <= 0x4000_0000_0000_0000,
{
    assert(-0x4000_0000_0000_0000 <= a * b <= 0x4000_0000_0000_0000) by (nonlinear_arith)
        requires
            -0x8000_0000 <= a <= 0x7fff_ffff,
            -0x8000_0000 <= b <= 0x7fff_ffff,
    ;
}

/// How many whole frames have passed at `nseconds`.
pub open spec fn frames_elapsed(nseconds: int, framerate: Fraction) -> int {
    nseconds * framerate.numer / (framerate.denom * SECOND)
}

/// The time, in nanoseconds and rounded down, at which frame `frame` starts.
pub open spec fn frame_start(frame: int, framerate: Fraction) -> int {
    SECOND * (frame * framerate.denom) / (framerate.numer as int)
}

/// The frame that is shown at `time`; a number too large to hold becomes the largest one.
pub open spec fn frame_at(time: ClockTime, framerate: Fraction) -> u64 {
    let frames = frames_elapsed(time.nseconds as int, framerate);
    if frames <= u64::MAX {
        frames as u64
    } else {
        u64::MAX
    }
}

/// The time of frame `frame`, from a frame count in units of `1 / numer` seconds that saturates; a
/// time too large to hold becomes the largest one.
pub open spec fn time_of(frame: u64, framerate: Fraction) -> ClockTime {
    let units = if frame * framerate.denom <= u64::MAX {
        frame * framerate.denom
    } else {
        u64::MAX as int
    };
    let nseconds = SECOND * units / (framerate.numer as int);
    ClockTime {
        nseconds: if nseconds <= u64::MAX {
            nseconds as u64
        } else {
            RAW_MAX
        },
    }
}

/// The time of frame `frame` is held without saturating, and is not the reserved value.
pub open spec fn representable(frame: int, framerate: Fraction) -> bool {
    &&& 0 <= frame <= u64::MAX
    &&& frame * framerate.denom <= u64::MAX
    &&& frame_start(frame, framerate) < u64::MAX
}

/// Frame `frame` starts at a whole nanosecond, so its time is not rounded.
pub open spec fn starts_exactly(frame: int, framerate: Fraction) -> bool {
    (SECOND * (frame * framerate.denom)) % (framerate.numer as int) == 0
}

/// The number after `offset`; the largest one is followed by itself.
pub open spec fn following(offset: u64) -> u64 {
    if offset < u64::MAX {
        (offset + 1) as u64
    } else {
        u64::MAX
    }
}

/// `muldiv::MulDiv::mul_div_floor` for `u64`: `val * num / denom` rounded down, computed without
/// losing the high half of the product, or `None` where the quotient does not fit. It panics when
/// `denom` is zero.
#[verifier::external_body]
fn mul_div_floor(val: u64, num: u64, denom: u64) -> (r: Option<u64>)
    requires
        denom != 0,
    ensures
        r == if val * num / (denom as int) <= u64::MAX {
            Some((val * num / (denom as int)) as u64)
        } else {
            None
        },
{
    val.mul_div_floor(num, denom)
}

/// The number of the frame that is shown at `time`.
pub fn frames_for_time(time: ClockTime, framerate: Fraction) -> (r: u64)
    requires
        framerate.positive(),
    ensures
        r == frame_at(time, framerate),
{
    let numer: u64 = framerate.numer as u64;
    let unit: u64 = (framerate.denom as u64) * SECOND;
    match mul_div_floor(time.nseconds, numer, unit) {
        Some(frames) => frames,
        None => u64::MAX,
    }
}

/// The time at which frame `frame` starts.
pub fn time_for_frame(frame: u64, framerate: Fraction) -> (r: ClockTime)
    requires
        framerate.positive(),
    ensures
        r == time_of(frame, framerate),
{
    let denom: u64 = framerate.denom as u64;
    let units: u64 = match frame.checked_mul(denom) {
        Some(units) => units,
        None => u64::MAX,
    };
    match mul_div_floor(SECOND, units, framerate.numer as u64) {
        Some(nseconds) => ClockTime { nseconds },
        None => ClockTime { nseconds: RAW_MAX },
    }
}

/// The bounds of a quotient that is rounded down.
proof fn lemma_floor_bounds(x: int, d: int)
    requires
        0 < d,
    ensures
        (x / d) * d <= x < (x / d + 1) * d,
{
    assert((x / d) * d <= x < (x / d + 1) * d) by (nonlinear_arith)
        requires
            0 < d,
    ;
}

/// A quotient that is rounded down is the largest integer that does not exceed it.
proof fn lemma_floor_greatest(x: int, d: int, q: int)
    requires
        0 < d,
    ensures
        q * d <= x ==> q <= x / d,
        x < q * d ==> x / d < q,
{
    lemma_floor_bounds(x, d);
    let f = x / d;
    assert(q * d <= x ==> q <= f) by (nonlinear_arith)
        requires
            0 < d,
            x < (f + 1) * d,
    ;
    assert(x < q * d ==> f < q) by (nonlinear_arith)
        requires
            0 < d,
            f * d <= x,
    ;
}

/// A later frame does not start earlier.
pub proof fn lemma_frame_start_monotonic(a: int, b: int, framerate: Fraction)
    requires
        framerate.positive(),
        a <= b,
    ensures
        frame_start(a, framerate) <= frame_start(b, framerate),
{
    let d = framerate.denom as int;
    assert(SECOND * (a * d) <= SECOND * (b * d)) by (nonlinear_arith)
        requires
            a <= b,
            0 < d,
            SECOND > 0,
    ;
    lemma_div_is_ordered(SECOND * (a * d), SECOND * (b * d), framerate.numer as int);
}

/// Up to one frame per nanosecond, a later frame starts later.
pub proof fn lemma_strictly_later(a: int, b: int, framerate: Fraction)
    requires
        framerate.positive(),
        framerate.numer <= framerate.denom * SECOND,
        a < b,
    ensures
        frame_start(a, framerate) < frame_start(b, framerate),
{
    let n = framerate.numer as int;
    let d = framerate.denom as int;
    let second = SECOND as int;
    let t = frame_start(a, framerate);
    lemma_floor_bounds(second * (a * d), n);
    assert((t + 1) * n <= second * (b * d)) by (nonlinear_arith)
        requires
            t * n <= second * (a * d),
            n <= d * second,
            a + 1 <= b,
            0 < d,
            0 < second,
    ;
    lemma_floor_greatest(second * (b * d), n, t + 1);
}

/// A later frame does not have an earlier time. (The reserved value, which is no time, is left out.)
pub proof fn lemma_time_of_monotonic(a: u64, b: u64, framerate: Fraction)
    requires
        framerate.positive(),
        a <= b,
        time_of(a, framerate).defined(),
    ensures
        time_of(a, framerate).nseconds <= time_of(b, framerate).nseconds,
{
    let d = framerate.denom as int;
    assert(a * d <= b * d) by (nonlinear_arith)
        requires
            a <= b,
            0 < d,
    ;
    let ua = if a * d <= u64::MAX {
        a * d
    } else {
        u64::MAX as int
    };
    let ub = if b * d <= u64::MAX {
        b * d
    } else {
        u64::MAX as int
    };
    lemma_div_is_ordered(SECOND * ua, SECOND * ub, framerate.numer as int);
    lemma_time_of_nonnegative(a, framerate);
    lemma_time_of_nonnegative(b, framerate);
}

/// The quotients in the definition of `time_of` are not negative.
proof fn lemma_time_of_nonnegative(frame: u64, framerate: Fraction)
    requires
        framerate.positive(),
    ensures
        0 <= frame * framerate.denom,
        0 <= SECOND * (frame * framerate.denom) / (framerate.numer as int),
{
    let d = framerate.denom as int;
    assert(0 <= frame * d) by (nonlinear_arith)
        requires
            0 <= frame,
            0 < d,
    ;
    lemma_floor_greatest(SECOND * (frame * d), framerate.numer as int, 0);
}

/// At a later time, the frame that is shown is not an earlier one.
pub proof fn lemma_frame_at_monotonic(a: ClockTime, b: ClockTime, framerate: Fraction)
    requires
        framerate.positive(),
        a.nseconds <= b.nseconds,
    ensures
        frame_at(a, framerate) <= frame_at(b, framerate),
{
    let n = framerate.numer as int;
    assert(a.nseconds * n <= b.nseconds * n) by (nonlinear_arith)
        requires
            a.nseconds <= b.nseconds,
            0 < n,
    ;
    lemma_div_is_ordered(a.nseconds * n, b.nseconds * n, framerate.denom * SECOND);
    lemma_frames_elapsed_nonnegative(a, framerate);
}

proof fn lemma_frames_elapsed_nonnegative(time: ClockTime, framerate: Fraction)
    requires
        framerate.positive(),
    ensures
        0 <= frames_elapsed(time.nseconds as int, framerate),
{
    let n = framerate.numer as int;
    assert(0 <= time.nseconds * n) by (nonlinear_arith)
        requires
            0 <= time.nseconds,
            0 < n,
    ;
    lemma_floor_greatest(time.nseconds * n, framerate.denom * SECOND, 0);
}

/// The frame that is shown at a time does not start after it.
pub proof fn lemma_shown_frame_has_started(time: ClockTime, framerate: Fraction)
    requires
        framerate.positive(),
    ensures
        time_of(frame_at(time, framerate), framerate).nseconds <= time.nseconds,
{
    let t = time.nseconds as int;
    let n = framerate.numer as int;
    let d = framerate.denom as int;
    let second = SECOND as int;
    let f = frames_elapsed(t, framerate);
    let frame = frame_at(time, framerate) as int;
    lemma_frames_elapsed_nonnegative(time, framerate);
    lemma_floor_bounds(t * n, d * second);
    let units = if frame * d <= u64::MAX {
        frame * d
    } else {
        u64::MAX as int
    };
    assert(units <= f * d) by (nonlinear_arith)
        requires
            units <= frame * d,
            frame <= f,
            0 < d,
    ;
    assert(second * units <= t * n) by (nonlinear_arith)
        requires
            units <= f * d,
            f * (d * second) <= t * n,
            0 < second,
    ;
    assert(second * units < (t + 1) * n) by (nonlinear_arith)
        requires
            second * units <= t * n,
            0 < n,
    ;
    lemma_floor_greatest(second * units, n, t + 1);
    lemma_time_of_nonnegative(frame as u64, framerate);
    lemma_floor_greatest(second * units, n, 0);
}

/// The frame after the one that is shown at a time does not start before it. A frame count saturates at
/// some time, and no frame starts later than that: later times are left out.
pub proof fn lemma_next_frame_has_not_started(time: ClockTime, framerate: Fraction)
    requires
        framerate.positive(),
        time.defined(),
        time.nseconds * framerate.numer <= SECOND * u64::MAX,
    ensures
        time.nseconds <= time_of(following(frame_at(time, framerate)), framerate).nseconds,
{
    let t = time.nseconds as int;
    let n = framerate.numer as int;
    let d = framerate.denom as int;
    let second = SECOND as int;
    let max = u64::MAX as int;
    let f = frames_elapsed(t, framerate);
    let next = following(frame_at(time, framerate)) as int;
    lemma_frames_elapsed_nonnegative(time, framerate);
    lemma_time_of_nonnegative(next as u64, framerate);
    lemma_floor_bounds(t * n, d * second);
    if next * d <= max {
        if f < max {
            assert(t * n <= second * ((f + 1) * d)) by (nonlinear_arith)
                requires
                    t * n < (f + 1) * (d * second),
            ;
        } else {
            assert(max <= max * d) by (nonlinear_arith)
                requires
                    0 <= max,
                    1 <= d,
            ;
            assert(second * max <= second * (next * d));
        }
        lemma_floor_greatest(second * (next * d), n, t);
    } else {
        lemma_floor_greatest(second * max, n, t);
    }
}

/// Before the start of a frame whose count can be held, no count has saturated.
pub proof fn lemma_held_count(time: ClockTime, framerate: Fraction)
    requires
        framerate.positive(),
        (frame_at(time, framerate) + 1) * framerate.denom <= u64::MAX,
    ensures
        frame_at(time, framerate) < u64::MAX,
        time.nseconds * framerate.numer <= SECOND * u64::MAX,
{
    let t = time.nseconds as int;
    let n = framerate.numer as int;
    let d = framerate.denom as int;
    let second = SECOND as int;
    let max = u64::MAX as int;
    let f = frames_elapsed(t, framerate);
    let frame = frame_at(time, framerate) as int;
    lemma_frames_elapsed_nonnegative(time, framerate);
    assert(frame + 1 <= max) by (nonlinear_arith)
        requires
            (frame + 1) * d <= max,
            0 < d,
            0 <= frame,
    ;
    lemma_floor_bounds(t * n, d * second);
    assert(t * n <= second * max) by (nonlinear_arith)
        requires
            t * n < (f + 1) * (d * second),
            (f + 1) * d <= max,
            0 < second,
    ;
}

/// At framerates with a numerator of up to `SECOND`, the frame after the one that is shown at a time does
/// not start before it, at any time.
pub proof fn lemma_next_frame_has_not_started_at_any_time(time: ClockTime, framerate: Fraction)
    requires
        framerate.positive(),
        framerate.numer <= SECOND,
        time.defined(),
    ensures
        time.nseconds <= time_of(following(frame_at(time, framerate)), framerate).nseconds,
{
    let t = time.nseconds as int;
    let n = framerate.numer as int;
    let second = SECOND as int;
    assert(t * n <= second * u64::MAX) by (nonlinear_arith)
        requires
            0 <= t <= u64::MAX,
            0 < n <= second,
    ;
    lemma_next_frame_has_not_started(time, framerate);
}

/// The frame that is shown when a frame starts is that frame, unless its time was rounded down; then it
/// is the one before. This holds of rates up to one frame per nanosecond.
pub proof fn lemma_frame_shown_at_own_start(frame: u64, framerate: Fraction)
    requires
        framerate.positive(),
        framerate.numer <= framerate.denom * SECOND,
        representable(frame as int, framerate),
    ensures
        frame_at(time_of(frame, framerate), framerate) == if starts_exactly(
            frame as int,
            framerate,
        ) {
            frame as int
        } else {
            frame - 1
        },
{
    let n = framerate.numer as int;
    let d = framerate.denom as int;
    let second = SECOND as int;
    let f = frame as int;
    let x = second * (f * d);
    let t = frame_start(f, framerate);
    lemma_time_of_nonnegative(frame, framerate);
    assert(time_of(frame, framerate).nseconds == t);
    lemma_floor_bounds(x, n);
    vstd::arithmetic::div_mod::lemma_fundamental_div_mod(x, n);
    assert(n * t == t * n) by (nonlinear_arith);
    assert(x == f * (d * second)) by (nonlinear_arith)
        requires
            x == second * (f * d),
    ;
    assert(f * (d * second) < (f + 1) * (d * second)) by (nonlinear_arith)
        requires
            0 < d,
            0 < second,
    ;
    lemma_floor_greatest(t * n, d * second, f + 1);
    assert((f - 1) * (d * second) <= t * n) by (nonlinear_arith)
        requires
            f * (d * second) < (t + 1) * n,
            n <= d * second,
    ;
    lemma_floor_greatest(t * n, d * second, f - 1);
    lemma_floor_greatest(t * n, d * second, f);
    lemma_frames_elapsed_nonnegative(time_of(frame, framerate), framerate);
}

} // verus!
