//! Fixed-point arithmetic shared by the whole engine.
//!
//! Gains, fractional sample positions, musical time in beats, tempo, sample
//! rate and playback speed are all `i64` counts of billionths: the value
//! `UNIT` stands for 1.0. Results that leave the `i64` range are clamped to
//! it, and quotients are rounded toward zero.

use vstd::prelude::*;

verus! {

/// The fixed-point representation of 1.0.
pub const UNIT: i64 = 1_000_000_000;

/// `x` clamped to the range of `i64`.
pub open spec fn clamp(x: int) -> int {
    if x > i64::MAX {
        i64::MAX as int
    } else if x < i64::MIN {
        i64::MIN as int
    } else {
        x
    }
}

/// The quotient `a / b` rounded toward zero, for a positive `b`.
pub open spec fn quotient_toward_zero(a: int, b: int) -> int {
    if a >= 0 {
        a / b
    } else {
        -((-a) / b)
    }
}

/// `a * b / c`, rounded toward zero once and clamped.
pub open spec fn scaled_ratio(a: int, b: int, c: int) -> int {
    clamp(quotient_toward_zero(a * b, c))
}

/// The scaled ratio of values that are not negative is not negative.
pub proof fn lemma_scaled_ratio_sign(a: int, b: int, c: int)
    requires
        a >= 0,
        b >= 0,
        c > 0,
    ensures
        scaled_ratio(a, b, c) >= 0,
{
    assert(a * b >= 0 && (a * b) / c >= 0) by (nonlinear_arith)
        requires
            a >= 0,
            b >= 0,
            c > 0,
    ;
}

/// The number of whole units in a fixed-point value, as a count: zero for
/// a value that is not positive, and at most `usize::MAX`.
pub open spec fn count_of(x: int) -> nat {
    if x <= 0 {
        0
    } else if x / (UNIT as int) > usize::MAX {
        usize::MAX as nat
    } else {
        (x / (UNIT as int)) as nat
    }
}

/// Narrows a wide intermediate result to `i64`, clamping it.
pub fn narrow(x: i128) -> (r: i64)
    ensures
        r == clamp(x as int),
{
    if x > i64::MAX as i128 {
        i64::MAX
    } else if x < i64::MIN as i128 {
        i64::MIN
    } else {
        x as i64
    }
}

/// `a + b`, clamped.
pub fn saturating_sum(a: i64, b: i64) -> (r: i64)
    ensures
        r == clamp(a + b),
{
    narrow(a as i128 + b as i128)
}

/// `a - b`, clamped.
pub fn saturating_difference(a: i64, b: i64) -> (r: i64)
    ensures
        r == clamp(a - b),
{
    narrow(a as i128 - b as i128)
}

/// The exact product of two `i64` values.
pub fn wide_product(a: i64, b: i64) -> (r: i128)
    ensures
        r == a * b,
        -0x4000_0000_0000_0000_0000_0000_0000_0000 <= r <= 0x4000_0000_0000_0000_0000_0000_0000_0000,
{
    assert(-0x4000_0000_0000_0000_0000_0000_0000_0000 <= a * b
        <= 0x4000_0000_0000_0000_0000_0000_0000_0000) by (nonlinear_arith)
        requires
            -0x8000_0000_0000_0000 <= a < 0x8000_0000_0000_0000,
            -0x8000_0000_0000_0000 <= b < 0x8000_0000_0000_0000,
    ;
    (a as i128) * (b as i128)
}

/// `a * b / c` for a positive divisor: the product is exact, the quotient
/// is rounded toward zero, and the result is clamped.
pub fn mul_div(a: i64, b: i64, c: i64) -> (r: i64)
    requires
        c > 0,
    ensures
        r == scaled_ratio(a as int, b as int, c as int),
{
    let p: i128 = wide_product(a, b);
    if p >= 0 {
        narrow(p / (c as i128))
    } else {
        let q: i128 = (-p) / (c as i128);
        narrow(-q)
    }
}

/// A value put together from `whole` units and a fraction of one unit
/// divides back into the two.
pub proof fn lemma_whole_and_fraction(whole: int, frac: int)
    requires
        0 <= frac < UNIT,
    ensures
        (whole * UNIT + frac) / (UNIT as int) == whole,
        (whole * UNIT + frac) % (UNIT as int) == frac,
{
    let x: int = whole * UNIT + frac;
    let u: int = UNIT as int;
    assert(x / u == whole && x % u == frac) by (nonlinear_arith)
        requires
            x == whole * u + frac,
            0 <= frac < u,
            u > 0,
    ;
}

/// Adding whole units to a value moves its whole part and keeps its
/// fraction.
pub proof fn lemma_shift_by_whole(x: int, whole: int)
    ensures
        (x + whole * UNIT) / (UNIT as int) == x / (UNIT as int) + whole,
        (x + whole * UNIT) % (UNIT as int) == x % (UNIT as int),
{
    let u: int = UNIT as int;
    let q: int = x / u;
    let r: int = x % u;
    assert(x == q * u + r && 0 <= r < u) by (nonlinear_arith)
        requires
            q == x / u,
            r == x % u,
            u > 0,
    ;
    assert(x + whole * UNIT == (q + whole) * UNIT + r) by (nonlinear_arith)
        requires
            x == q * u + r,
            u == UNIT,
    ;
    lemma_whole_and_fraction(q + whole, r);
}

/// Splits a fixed-point value into its whole units, rounded down, and the
/// fraction of a unit above them.
pub fn split(x: i64) -> (parts: (i64, i64))
    ensures
        parts.0 == x / UNIT,
        parts.1 == x % UNIT,
        0 <= parts.1 < UNIT,
        x == parts.0 * UNIT + parts.1,
{
    if x >= 0 {
        (x / UNIT, x % UNIT)
    } else {
        let m: i128 = -(x as i128);
        let q: i128 = m / (UNIT as i128);
        let r: i128 = m % (UNIT as i128);
        if r == 0 {
            proof {
                lemma_whole_and_fraction(-(q as int), 0);
            }
            ((-q) as i64, 0)
        } else {
            proof {
                lemma_whole_and_fraction(-(q as int) - 1, UNIT - r);
            }
            ((-q - 1) as i64, (UNIT as i128 - r) as i64)
        }
    }
}

/// The whole units of a fixed-point value as a count.
pub fn to_count(x: i64) -> (r: usize)
    ensures
        r == count_of(x as int),
{
    if x <= 0 {
        0
    } else {
        let w: i64 = x / UNIT;
        if w as u64 > usize::MAX as u64 {
            usize::MAX
        } else {
            w as usize
        }
    }
}

/// A count of whole units as a fixed-point value, clamped.
pub fn from_count(n: usize) -> (r: i64)
    ensures
        r == clamp(n * UNIT),
{
    assert(0 <= n * UNIT <= 0xffff_ffff_ffff_ffff * 1_000_000_000) by (nonlinear_arith)
        requires
            0 <= n <= 0xffff_ffff_ffff_ffff,
            UNIT == 1_000_000_000,
    ;
    let wide: i128 = (n as i128) * (UNIT as i128);
    narrow(wide)
}

} // verus!
