//! Frames and times.

use crate::clock_time::{
    defined_or_none, following, frame_at, representable, starts_exactly, time_of, ClockTime,
    Fraction,
};
use crate::image_freeze::preceding;
use vstd::prelude::*;

verus! {

/// The bounds of a quotient that is rounded down.
proof fn lemma_quotient(x: int, d: int)
    requires
        0 < d,
    ensures
        (x / d) * d <= x < (x / d + 1) * d,
{
    assert((x / d) * d <= x < (x / d + 1) * d) by (nonlinear_arith)
        requires
            0 < d,
    ;
}

proof fn lemma_product_not_negative(a: int, b: int)
    requires
        0 <= a,
        0 <= b,
    ensures
        0 <= a * b,
{
    assert(0 <= a * b) by (nonlinear_arith)
        requires
            0 <= a,
            0 <= b,
    ;
}

/// At a time, `frame` whole frames have passed, and the next one has not, counted in parts of
/// `1 / numer` nanoseconds. A count too large to hold becomes the largest one.
pub proof fn lemma_whole_frames_have_passed(time: ClockTime, framerate: Fraction)
    requires
        framerate.positive(),
    ensures
        ({
            let frame = frame_at(time, framerate) as int;
            let length = framerate.denom * 1_000_000_000;
            let passed = time.nseconds * framerate.numer;
            if passed < 0x1_0000_0000_0000_0000int * length {
                frame * length <= passed < (frame + 1) * length
            } else {
                frame == 0xffff_ffff_ffff_ffffint
            }
        }),
{
    let length = framerate.denom * 1_000_000_000;
    let passed = time.nseconds * framerate.numer;
    let q = passed / length;
    let limit = 0x1_0000_0000_0000_0000int;
    lemma_product_not_negative(time.nseconds as int, framerate.numer as int);
    lemma_quotient(passed, length);
    assert(0 <= q) by (nonlinear_arith)
        requires
            0 <= passed,
            passed < (q + 1) * length,
            0 < length,
    ;
    assert(passed < limit * length <==> q < limit) by (nonlinear_arith)
        requires
            q * length <= passed < (q + 1) * length,
            0 < length,
    ;
}

/// A frame starts at a time at which all frames before it have passed, and a nanosecond later it has
/// started: the time is rounded down. Counts that are too large to hold become the largest ones.
pub proof fn lemma_frame_starts_after_those_before(frame: u64, framerate: Fraction)
    requires
        framerate.positive(),
    ensures
        ({
            let time = time_of(frame, framerate).nseconds as int;
            let units = frame * framerate.denom;
            let held = if units <= 0xffff_ffff_ffff_ffffint {
                units
            } else {
                0xffff_ffff_ffff_ffffint
            };
            let passed = held * 1_000_000_000;
            if passed < 0x1_0000_0000_0000_0000int * framerate.numer {
                time * framerate.numer <= passed < (time + 1) * framerate.numer
            } else {
                time == 0xffff_ffff_ffff_fffeint
            }
        }),
{
    let n = framerate.numer as int;
    let units = frame * framerate.denom;
    let held = if units <= 0xffff_ffff_ffff_ffffint {
        units
    } else {
        0xffff_ffff_ffff_ffffint
    };
    let passed = 1_000_000_000 * held;
    let q = passed / n;
    let limit = 0x1_0000_0000_0000_0000int;
    lemma_product_not_negative(frame as int, framerate.denom as int);
    lemma_quotient(passed, n);
    assert(0 <= q) by (nonlinear_arith)
        requires
            0 <= passed,
            passed < (q + 1) * n,
            0 < n,
    ;
    assert(passed < limit * n <==> q < limit) by (nonlinear_arith)
        requires
            q * n <= passed < (q + 1) * n,
            0 < n,
    ;
}

/// Framerates that denote the same ratio show the same frame at every time.
pub proof fn lemma_same_ratio_shows_the_same_frames(a: Fraction, b: Fraction, time: ClockTime)
    requires
        a.positive(),
        b.positive(),
        a.numer * b.denom == b.numer * a.denom,
    ensures
        a.same_ratio(b),
        frame_at(time, a) == frame_at(time, b),
{
    lemma_whole_frames_have_passed(time, a);
    lemma_whole_frames_have_passed(time, b);
    let (f, g) = (frame_at(time, a) as int, frame_at(time, b) as int);
    let (p, q) = (time.nseconds * a.numer, time.nseconds * b.numer);
    let (k, l) = (a.denom * 1_000_000_000, b.denom * 1_000_000_000);
    let limit = 0x1_0000_0000_0000_0000int;
    let (t, an, bn, ad, bd) = (
        time.nseconds as int,
        a.numer as int,
        b.numer as int,
        a.denom as int,
        b.denom as int,
    );
    assert(p * l == q * k) by (nonlinear_arith)
        requires
            p == t * an,
            q == t * bn,
            k == ad * 1_000_000_000,
            l == bd * 1_000_000_000,
            an * bd == bn * ad,
    ;
    assert(p < limit * k <==> q < limit * l) by (nonlinear_arith)
        requires
            p * l == q * k,
            0 < k,
            0 < l,
    ;
    if p < limit * k {
        assert(f < g + 1) by (nonlinear_arith)
            requires
                f * k <= p,
                q < (g + 1) * l,
                p * l == q * k,
                0 < k,
                0 < l,
        ;
        assert(g < f + 1) by (nonlinear_arith)
            requires
                g * l <= q,
                p < (f + 1) * k,
                p * l == q * k,
                0 < k,
                0 < l,
        ;
    }
}

/// Framerates that denote different ratios do not count as the same.
pub proof fn lemma_same_ratio(a: Fraction, b: Fraction)
    ensures
        a.same_ratio(b) <==> a.numer * b.denom == b.numer * a.denom,
        a.same_ratio(b) <==> b.same_ratio(a),
        a.same_ratio(a),
        a.positive() <==> a.numer > 0 && a.denom > 0,
{
}

/// Numbers count up and down by one, and stop at the largest and at zero.
pub proof fn lemma_neighbours(offset: u64)
    ensures
        offset < 0xffff_ffff_ffff_ffff ==> following(offset) == offset + 1,
        following(0xffff_ffff_ffff_ffff) == 0xffff_ffff_ffff_ffff,
        offset > 0 ==> preceding(offset) == offset - 1,
        preceding(0) == 0,
{
}

/// One raw value is reserved, and only that one is not a time.
pub proof fn lemma_defined(nseconds: u64)
    ensures
        (ClockTime { nseconds }).defined() <==> nseconds != 0xffff_ffff_ffff_ffff,
        defined_or_none(Some(ClockTime { nseconds })) <==> nseconds != 0xffff_ffff_ffff_ffff,
        defined_or_none(None),
{
}

/// The time of a frame can be held if its count and its time fit, and it starts exactly if its time was
/// not rounded.
pub proof fn lemma_representable(frame: int, framerate: Fraction)
    requires
        framerate.positive(),
        0 <= frame,
    ensures
        representable(frame, framerate) <==> frame <= u64::MAX && frame * framerate.denom
            <= u64::MAX && frame * framerate.denom * 1_000_000_000 < u64::MAX * framerate.numer,
        representable(frame, framerate) ==> (starts_exactly(frame, framerate) <==> time_of(
            frame as u64,
            framerate,
        ).nseconds * framerate.numer == frame * framerate.denom * 1_000_000_000),
{
    let n = framerate.numer as int;
    let x = 1_000_000_000 * (frame * framerate.denom);
    let q = x / n;
    lemma_product_not_negative(frame, framerate.denom as int);
    lemma_quotient(x, n);
    assert(q < u64::MAX <==> x < u64::MAX * n) by (nonlinear_arith)
        requires
            q * n <= x < (q + 1) * n,
            0 < n,
    ;
    assert(0 <= q) by (nonlinear_arith)
        requires
            0 <= x,
            x < (q + 1) * n,
            0 < n,
    ;
    vstd::arithmetic::div_mod::lemma_fundamental_div_mod(x, n);
    assert(n * q == q * n) by (nonlinear_arith);
    if representable(frame, framerate) {
        assert(time_of(frame as u64, framerate).nseconds == q);
    }
}

} // verus!
