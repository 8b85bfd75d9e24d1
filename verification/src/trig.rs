//! Fixed-point trigonometry for the synthesized tap and the transform.
//!
//! Angles are fractions of a turn: `k / n` of a full circle. The sine is a
//! Bhaskara-style rational approximation computed entirely in integers; it is
//! exact at quarter turns (0, `UNIT`, `-UNIT`) and within about 0.2% of the
//! true sine elsewhere, which is ample for band-level spectral analysis.

use vstd::prelude::*;

use crate::fixed::UNIT;

verus! {

/// Largest angle denominator the trigonometry accepts; it keeps every
/// intermediate product comfortably inside 64 bits.
pub const MAX_ANGLE_DEN: u64 = 524288;

/// `UNIT * sin(pi * m / h)` for `0 <= m <= h`, as the rational approximation
/// `16 m (h - m) UNIT / (5 h^2 - 4 m (h - m))`.
pub open spec fn half_sine_spec(m: int, h: int) -> int {
    16 * m * (h - m) * UNIT / (5 * h * h - 4 * m * (h - m))
}

/// Shape and size facts about the half-sine numerator and denominator, in the
/// grouping the executable code computes them with.
proof fn lemma_half_sine_parts(m: int, h: int)
    requires
        0 <= m <= h,
        1 <= h <= 2 * MAX_ANGLE_DEN,
    ensures
        0 <= m * (h - m),
        4 * (m * (h - m)) <= h * h,
        m * (h - m) <= 0x100_0000_0000,
        1 <= h * h <= 0x100_0000_0000,
        half_sine_spec(m, h) == 16 * (m * (h - m)) * UNIT / (5 * (h * h) - 4 * (m * (h - m))),
{
    assert(0 <= m * (h - m) && 4 * (m * (h - m)) <= h * h) by (nonlinear_arith)
        requires
            0 <= m <= h,
    ;
    assert(m * (h - m) <= 0x100_0000_0000 && 1 <= h * h <= 0x100_0000_0000) by (nonlinear_arith)
        requires
            0 <= m <= h,
            1 <= h <= 1048576,
    ;
    assert(16 * m * (h - m) * UNIT == 16 * (m * (h - m)) * UNIT) by (nonlinear_arith);
    assert(4 * m * (h - m) == 4 * (m * (h - m))) by (nonlinear_arith);
    assert(5 * h * h == 5 * (h * h)) by (nonlinear_arith);
}

/// The half-turn sine stays within `[0, UNIT]` on its domain.
pub proof fn lemma_half_sine_range(m: int, h: int)
    requires
        0 <= m <= h,
        1 <= h,
    ensures
        0 <= half_sine_spec(m, h) <= UNIT,
{
    assert(0 <= m * (h - m) && 4 * (m * (h - m)) <= h * h) by (nonlinear_arith)
        requires
            0 <= m <= h,
    ;
    assert(1 <= h * h) by (nonlinear_arith)
        requires
            1 <= h,
    ;
    assert(4 * m * (h - m) == 4 * (m * (h - m))) by (nonlinear_arith);
    assert(5 * h * h == 5 * (h * h)) by (nonlinear_arith);
    assert(5 * h * h - 4 * m * (h - m) > 0);
    assert(0 <= 16 * m * (h - m) * UNIT <= UNIT * (5 * h * h - 4 * m * (h - m))) by (nonlinear_arith)
        requires
            0 <= m <= h,
    ;
    vstd::arithmetic::div_mod::lemma_div_pos_is_pos(
        16 * m * (h - m) * UNIT,
        5 * h * h - 4 * m * (h - m),
    );
    vstd::arithmetic::div_mod::lemma_div_is_ordered(
        16 * m * (h - m) * UNIT,
        UNIT * (5 * h * h - 4 * m * (h - m)),
        5 * h * h - 4 * m * (h - m),
    );
    vstd::arithmetic::div_mod::lemma_div_multiples_vanish(
        UNIT as int,
        5 * h * h - 4 * m * (h - m),
    );
    assert((5 * h * h - 4 * m * (h - m)) * UNIT == UNIT * (5 * h * h - 4 * m * (h - m)))
        by (nonlinear_arith);
}

pub fn half_sine(m: u64, h: u64) -> (r: i64)
    requires
        1 <= h <= 2 * MAX_ANGLE_DEN,
        m <= h,
    ensures
        r == half_sine_spec(m as int, h as int),
        0 <= r <= UNIT,
{
    proof {
        lemma_half_sine_parts(m as int, h as int);
        lemma_half_sine_range(m as int, h as int);
    }
    let hm: u64 = h - m;
    let p: u64 = m * hm;
    let num: u64 = 16 * p * (UNIT as u64);
    let den: u64 = 5 * (h * h) - 4 * p;
    proof {
        vstd::arithmetic::div_mod::lemma_div_pos_is_pos(num as int, den as int);
    }
    (num / den) as i64
}

/// `UNIT * sin(2 pi k / n)` for `0 <= k < n`: the first half turn is the
/// half-turn sine, the second half turn its negation.
pub open spec fn sine_frac_spec(k: int, n: int) -> int {
    if 2 * k <= n {
        half_sine_spec(2 * k, n)
    } else {
        -half_sine_spec(2 * k - n, n)
    }
}

/// `UNIT * cos(2 pi k / n)` for `0 <= k < n`, through the quarter-turn shift
/// `cos x = sin(x + pi/2)` expressed over the half-turn denominator `2 n`.
pub open spec fn cosine_frac_spec(k: int, n: int) -> int {
    let m = 4 * k + n;
    if m <= 2 * n {
        half_sine_spec(m, 2 * n)
    } else if m < 4 * n {
        -half_sine_spec(m - 2 * n, 2 * n)
    } else {
        half_sine_spec(m - 4 * n, 2 * n)
    }
}

/// The full-turn sine stays within `[-UNIT, UNIT]`.
pub proof fn lemma_sine_frac_range(k: int, n: int)
    requires
        0 <= k < n,
        1 <= n,
    ensures
        -UNIT <= sine_frac_spec(k, n) <= UNIT,
{
    if 2 * k <= n {
        lemma_half_sine_range(2 * k, n);
    } else {
        lemma_half_sine_range(2 * k - n, n);
    }
}

/// The full-turn cosine stays within `[-UNIT, UNIT]`.
pub proof fn lemma_cosine_frac_range(k: int, n: int)
    requires
        0 <= k < n,
        1 <= n,
    ensures
        -UNIT <= cosine_frac_spec(k, n) <= UNIT,
{
    let m = 4 * k + n;
    if m <= 2 * n {
        lemma_half_sine_range(m, 2 * n);
    } else if m < 4 * n {
        lemma_half_sine_range(m - 2 * n, 2 * n);
    } else {
        lemma_half_sine_range(m - 4 * n, 2 * n);
    }
}

pub fn sine_frac(k: u64, n: u64) -> (r: i64)
    requires
        1 <= n <= MAX_ANGLE_DEN,
        k < n,
    ensures
        r == sine_frac_spec(k as int, n as int),
        -UNIT <= r <= UNIT,
{
    if 2 * k <= n {
        half_sine(2 * k, n)
    } else {
        -half_sine(2 * k - n, n)
    }
}

pub fn cosine_frac(k: u64, n: u64) -> (r: i64)
    requires
        1 <= n <= MAX_ANGLE_DEN,
        k < n,
    ensures
        r == cosine_frac_spec(k as int, n as int),
        -UNIT <= r <= UNIT,
{
    let m: u64 = 4 * k + n;
    if m <= 2 * n {
        half_sine(m, 2 * n)
    } else if m < 4 * n {
        -half_sine(m - 2 * n, 2 * n)
    } else {
        half_sine(m - 4 * n, 2 * n)
    }
}

} // verus!
