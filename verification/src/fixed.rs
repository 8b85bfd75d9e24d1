//! Fixed-point arithmetic for the analysis pipeline.
//!
//! Real values are represented as scaled integers: `UNIT` stands for 1.0.
//! This module supplies the shared numeric building blocks: sample validity,
//! the hard clamp into `[0, UNIT]`, truncating division, an integer square
//! root, and the logarithmic compression curve used by the post-processor.

use vstd::prelude::*;

verus! {

/// Fixed-point scale: the integer `UNIT` stands for the real value 1.0.
pub const UNIT: i64 = 10000;

/// A sample is one amplitude observation in the nominal range [-1.0, 1.0].
pub open spec fn valid_sample(s: i64) -> bool {
    -UNIT <= s <= UNIT
}

/// Every entry of the sequence is a valid sample.
pub open spec fn all_valid(s: Seq<i64>) -> bool {
    forall|i: int| 0 <= i < s.len() ==> valid_sample(#[trigger] s[i])
}

/// Hard clamp into the renderer-friendly range [0, UNIT].
pub open spec fn clamp_unit_spec(x: int) -> int {
    if x < 0 {
        0
    } else if x > UNIT {
        UNIT as int
    } else {
        x
    }
}

pub fn clamp_unit(x: i64) -> (r: i64)
    ensures
        r == clamp_unit_spec(x as int),
{
    if x < 0 {
        0
    } else if x > UNIT {
        UNIT
    } else {
        x
    }
}

/// Integer division truncating toward zero, the behaviour of `/` in
/// executable code; spec-mode `/` is Euclidean, which differs from it on
/// negative dividends.
pub open spec fn div_trunc(a: int, b: int) -> int {
    if a >= 0 {
        a / b
    } else {
        -((-a) / b)
    }
}

/// Absolute value.
pub open spec fn abs_val(a: int) -> int {
    if a < 0 {
        -a
    } else {
        a
    }
}

/// Floor of the square root of a nonnegative integer (0 below zero).
pub open spec fn sqrt_floor(x: int) -> int
    decreases x,
{
    if x <= 0 {
        0
    } else if (sqrt_floor(x - 1) + 1) * (sqrt_floor(x - 1) + 1) <= x {
        sqrt_floor(x - 1) + 1
    } else {
        sqrt_floor(x - 1)
    }
}

/// `sqrt_floor(x)` really is the floor of the square root: its square is at
/// most `x` and the next square is beyond `x`.
pub proof fn lemma_sqrt_floor_bounds(x: int)
    requires
        x >= 0,
    ensures
        0 <= sqrt_floor(x),
        sqrt_floor(x) * sqrt_floor(x) <= x,
        x < (sqrt_floor(x) + 1) * (sqrt_floor(x) + 1),
    decreases x,
{
    if x > 0 {
        lemma_sqrt_floor_bounds(x - 1);
        let r = sqrt_floor(x - 1);
        if (r + 1) * (r + 1) <= x {
            assert(x == (r + 1) * (r + 1));
            assert(x < (r + 2) * (r + 2)) by (nonlinear_arith)
                requires
                    x == (r + 1) * (r + 1),
                    r >= 0,
            ;
        }
    }
}

/// Any `r` with `r * r <= x < (r + 1) * (r + 1)` is `sqrt_floor(x)`.
pub proof fn lemma_sqrt_floor_unique(x: int, r: int)
    requires
        0 <= r,
        r * r <= x,
        x < (r + 1) * (r + 1),
    ensures
        r == sqrt_floor(x),
{
    assert(r * r >= 0) by (nonlinear_arith)
        requires
            r >= 0,
    ;
    lemma_sqrt_floor_bounds(x);
    let s = sqrt_floor(x);
    if r < s {
        assert((r + 1) * (r + 1) <= s * s) by (nonlinear_arith)
            requires
                0 <= r + 1 <= s,
        ;
    }
    if s < r {
        assert((s + 1) * (s + 1) <= r * r) by (nonlinear_arith)
            requires
                0 <= s + 1 <= r,
        ;
    }
}

/// The integer square root is monotone.
pub proof fn lemma_sqrt_floor_monotone(x: int, y: int)
    requires
        0 <= x <= y,
    ensures
        sqrt_floor(x) <= sqrt_floor(y),
{
    lemma_sqrt_floor_bounds(x);
    lemma_sqrt_floor_bounds(y);
    let a = sqrt_floor(x);
    let b = sqrt_floor(y);
    if b < a {
        assert((b + 1) * (b + 1) <= a * a) by (nonlinear_arith)
            requires
                0 <= b + 1 <= a,
        ;
    }
}

/// Integer square root by binary search.
pub fn isqrt(x: i64) -> (r: i64)
    requires
        0 <= x < 0x4000_0000_0000_0000,
    ensures
        r == sqrt_floor(x as int),
        0 <= r < 0x8000_0000,
        r * r <= x,
        x < (r + 1) * (r + 1),
{
    let mut lo: i64 = 0;
    let mut hi: i64 = 0x8000_0000;
    while lo + 1 < hi
        invariant
            0 <= lo < hi <= 0x8000_0000,
            (lo as int) * (lo as int) <= x as int,
            (x as int) < (hi as int) * (hi as int),
            0 <= x < 0x4000_0000_0000_0000,
        decreases hi - lo,
    {
        let mid: i64 = lo + (hi - lo) / 2;
        assert(lo < mid < hi);
        assert(mid * mid <= 0x4000_0000_0000_0000) by (nonlinear_arith)
            requires
                0 < mid <= 0x8000_0000,
        ;
        if mid * mid <= x {
            lo = mid;
        } else {
            hi = mid;
        }
    }
    proof {
        lemma_sqrt_floor_unique(x as int, lo as int);
    }
    lo
}

/// Piecewise-linear approximation of `UNIT * log2(u / UNIT)`: exact where
/// `u` is `UNIT` times a power of two, linearly interpolated in between.
/// Intended for `u >= UNIT`, where it is nonnegative and monotone.
pub open spec fn log_curve(u: int) -> int {
    if u < 2 * UNIT {
        u - UNIT
    } else if u < 4 * UNIT {
        UNIT + (u - 2 * UNIT) * UNIT / (2 * UNIT)
    } else if u < 8 * UNIT {
        2 * UNIT + (u - 4 * UNIT) * UNIT / (4 * UNIT)
    } else {
        3 * UNIT + (u - 8 * UNIT) * UNIT / (8 * UNIT)
    }
}

pub fn log_interp(u: i64) -> (r: i64)
    requires
        UNIT <= u <= 16 * UNIT,
    ensures
        r == log_curve(u as int),
        0 <= r <= 4 * UNIT,
{
    if u < 2 * UNIT {
        u - UNIT
    } else if u < 4 * UNIT {
        UNIT + (u - 2 * UNIT) * UNIT / (2 * UNIT)
    } else if u < 8 * UNIT {
        2 * UNIT + (u - 4 * UNIT) * UNIT / (4 * UNIT)
    } else {
        3 * UNIT + (u - 8 * UNIT) * UNIT / (8 * UNIT)
    }
}

/// On each linear segment the curve stays within the band that joins it
/// continuously to its neighbours.
pub proof fn lemma_log_curve_range(u: int)
    requires
        UNIT <= u,
    ensures
        u < 2 * UNIT ==> 0 <= log_curve(u) < UNIT,
        2 * UNIT <= u < 4 * UNIT ==> UNIT <= log_curve(u) < 2 * UNIT,
        4 * UNIT <= u < 8 * UNIT ==> 2 * UNIT <= log_curve(u) < 3 * UNIT,
        8 * UNIT <= u ==> 3 * UNIT <= log_curve(u),
{
    if 2 * UNIT <= u < 4 * UNIT {
        let a = (u - 2 * UNIT) * UNIT;
        vstd::arithmetic::div_mod::lemma_div_pos_is_pos(a, 2 * UNIT);
        vstd::arithmetic::div_mod::lemma_div_is_ordered(a, (2 * UNIT - 1) * UNIT, 2 * UNIT);
    }
    if 4 * UNIT <= u < 8 * UNIT {
        let a = (u - 4 * UNIT) * UNIT;
        vstd::arithmetic::div_mod::lemma_div_pos_is_pos(a, 4 * UNIT);
        vstd::arithmetic::div_mod::lemma_div_is_ordered(a, (4 * UNIT - 1) * UNIT, 4 * UNIT);
    }
    if 8 * UNIT <= u {
        vstd::arithmetic::div_mod::lemma_div_pos_is_pos((u - 8 * UNIT) * UNIT, 8 * UNIT);
    }
}

/// The compression curve is monotone where it is used (`u >= UNIT`).
pub proof fn lemma_log_curve_monotone(u: int, v: int)
    requires
        UNIT <= u <= v,
    ensures
        log_curve(u) <= log_curve(v),
{
    lemma_log_curve_range(u);
    lemma_log_curve_range(v);
    if 2 * UNIT <= u < 4 * UNIT && 2 * UNIT <= v < 4 * UNIT {
        vstd::arithmetic::div_mod::lemma_div_is_ordered(
            (u - 2 * UNIT) * UNIT,
            (v - 2 * UNIT) * UNIT,
            2 * UNIT,
        );
    }
    if 4 * UNIT <= u < 8 * UNIT && 4 * UNIT <= v < 8 * UNIT {
        vstd::arithmetic::div_mod::lemma_div_is_ordered(
            (u - 4 * UNIT) * UNIT,
            (v - 4 * UNIT) * UNIT,
            4 * UNIT,
        );
    }
    if 8 * UNIT <= u {
        vstd::arithmetic::div_mod::lemma_div_is_ordered(
            (u - 8 * UNIT) * UNIT,
            (v - 8 * UNIT) * UNIT,
            8 * UNIT,
        );
    }
}

/// Logarithmic compression of an amplified magnitude `a` in `[0, UNIT]`:
/// `0.3 * ln(1 + 10 * a / UNIT)` in fixed point, computed through the
/// piecewise-linear base-2 logarithm (`0.3 * ln 2 = 0.2079...`).
pub open spec fn compress_spec(a: int) -> int {
    log_curve(UNIT + 10 * a) * 2079 / 10000
}

pub fn compress(a: i64) -> (r: i64)
    requires
        0 <= a <= UNIT,
    ensures
        r == compress_spec(a as int),
        0 <= r <= UNIT,
        a == 0 ==> r == 0,
{
    let l: i64 = log_interp(UNIT + 10 * a);
    l * 2079 / 10000
}

/// Compressing a zero magnitude yields exactly zero.
pub proof fn lemma_compress_spec_zero()
    ensures
        compress_spec(0) == 0,
{
    vstd::arithmetic::div_mod::lemma_div_of0(10000);
}

/// Compression never decreases when its input grows.
pub proof fn lemma_compress_monotone(a: int, b: int)
    requires
        0 <= a <= b,
    ensures
        compress_spec(a) <= compress_spec(b),
{
    lemma_log_curve_monotone(UNIT + 10 * a, UNIT + 10 * b);
    vstd::arithmetic::div_mod::lemma_div_is_ordered(
        log_curve(UNIT + 10 * a) * 2079,
        log_curve(UNIT + 10 * b) * 2079,
        10000,
    );
}

} // verus!
