//! Raw Statistics Analyzer: amplitude and energy statistics computed
//! directly on the time-domain buffer, with no transform.
//!
//! From a buffer snapshot it derives three bounded channels:
//! loudness (`clamp(rms * 5)`), dynamic range (`clamp((max - min) / 2)`) and
//! the DC-offset-mapped level (`clamp((mean + 1) / 2)` rescaling the nominal
//! `[-1, 1]` mean into `[0, 1]`), all in fixed point.

use vstd::prelude::*;

use crate::fixed::{
    all_valid, clamp_unit, clamp_unit_spec, div_trunc, isqrt, lemma_sqrt_floor_bounds,
    lemma_sqrt_floor_monotone, sqrt_floor, valid_sample, UNIT,
};
use crate::ring::MAX_CAPACITY;

verus! {

/// Sum of the samples.
pub open spec fn sum_of(s: Seq<i64>) -> int
    decreases s.len(),
{
    if s.len() == 0 {
        0
    } else {
        sum_of(s.drop_last()) + s.last()
    }
}

/// Sum of the squared samples (the signal energy).
pub open spec fn sum_sq(s: Seq<i64>) -> int
    decreases s.len(),
{
    if s.len() == 0 {
        0
    } else {
        sum_sq(s.drop_last()) + s.last() * s.last()
    }
}

/// Largest sample (meaningful for nonempty sequences).
pub open spec fn max_of(s: Seq<i64>) -> int
    decreases s.len(),
{
    if s.len() <= 1 {
        s[0] as int
    } else if s.last() >= max_of(s.drop_last()) {
        s.last() as int
    } else {
        max_of(s.drop_last())
    }
}

/// Smallest sample (meaningful for nonempty sequences).
pub open spec fn min_of(s: Seq<i64>) -> int
    decreases s.len(),
{
    if s.len() <= 1 {
        s[0] as int
    } else if s.last() <= min_of(s.drop_last()) {
        s.last() as int
    } else {
        min_of(s.drop_last())
    }
}

/// Mean with truncating division, as the executable code computes it.
pub open spec fn mean_trunc(s: Seq<i64>) -> int {
    div_trunc(sum_of(s), s.len() as int)
}

/// Root mean square: the integer square root of the mean squared sample.
pub open spec fn rms_level(s: Seq<i64>) -> int {
    sqrt_floor(sum_sq(s) / (s.len() as int))
}

/// Overall loudness channel.
pub open spec fn raw_channel_0(s: Seq<i64>) -> int {
    clamp_unit_spec(5 * rms_level(s))
}

/// Dynamic range channel.
pub open spec fn raw_channel_1(s: Seq<i64>) -> int {
    clamp_unit_spec((max_of(s) - min_of(s)) / 2)
}

/// DC-offset-mapped level channel.
pub open spec fn raw_channel_2(s: Seq<i64>) -> int {
    clamp_unit_spec((mean_trunc(s) + UNIT) / 2)
}

/// The sum of valid samples is bounded by the length times `UNIT`.
pub proof fn lemma_sum_bounds(s: Seq<i64>)
    requires
        all_valid(s),
    ensures
        -UNIT * s.len() <= sum_of(s) <= UNIT * s.len(),
    decreases s.len(),
{
    if s.len() > 0 {
        assert(all_valid(s.drop_last())) by {
            assert(forall|i: int|
                0 <= i < s.len() - 1 ==> s.drop_last()[i] == #[trigger] s[i]);
        }
        lemma_sum_bounds(s.drop_last());
        assert(valid_sample(s[s.len() - 1]));
    }
}

/// The energy is nonnegative.
pub proof fn lemma_sum_sq_nonneg(s: Seq<i64>)
    ensures
        0 <= sum_sq(s),
    decreases s.len(),
{
    if s.len() > 0 {
        lemma_sum_sq_nonneg(s.drop_last());
        assert(s.last() * s.last() >= 0) by (nonlinear_arith);
    }
}

pub fn sum_samples(s: &Vec<i64>) -> (r: i64)
    requires
        all_valid(s@),
        s@.len() <= MAX_CAPACITY,
    ensures
        r == sum_of(s@),
{
    let n: usize = s.len();
    let mut acc: i64 = 0;
    let mut i: usize = 0;
    while i < n
        invariant
            n == s@.len(),
            i <= n,
            n <= MAX_CAPACITY,
            all_valid(s@),
            acc == sum_of(s@.take(i as int)),
            -10000 * (i as int) <= acc <= 10000 * (i as int),
        decreases n - i,
    {
        proof {
            assert(UNIT == 10000);
            assert(s@.take(i as int + 1).drop_last() =~= s@.take(i as int));
            assert(s@.take(i as int + 1).last() == s@[i as int]);
            assert(valid_sample(s@[i as int]));
        }
        acc = acc + s[i];
        i = i + 1;
    }
    proof {
        assert(s@.take(n as int) =~= s@);
    }
    acc
}

pub fn energy_of(s: &Vec<i64>) -> (r: i64)
    requires
        all_valid(s@),
        s@.len() <= MAX_CAPACITY,
    ensures
        r == sum_sq(s@),
        0 <= r <= UNIT * UNIT * s@.len(),
{
    let n: usize = s.len();
    let mut acc: i64 = 0;
    let mut i: usize = 0;
    while i < n
        invariant
            n == s@.len(),
            i <= n,
            n <= MAX_CAPACITY,
            all_valid(s@),
            acc == sum_sq(s@.take(i as int)),
            0 <= acc <= UNIT * UNIT * (i as int),
        decreases n - i,
    {
        proof {
            assert(s@.take(i as int + 1).drop_last() =~= s@.take(i as int));
            assert(s@.take(i as int + 1).last() == s@[i as int]);
            assert(valid_sample(s@[i as int]));
            assert(0 <= s@[i as int] * s@[i as int] <= UNIT * UNIT) by (nonlinear_arith)
                requires
                    -UNIT <= s@[i as int] <= UNIT,
            ;
            assert(UNIT * UNIT == 100000000);
        }
        acc = acc + s[i] * s[i];
        i = i + 1;
    }
    proof {
        assert(s@.take(n as int) =~= s@);
    }
    acc
}

pub fn max_sample(s: &Vec<i64>) -> (r: i64)
    requires
        1 <= s@.len(),
        all_valid(s@),
    ensures
        r == max_of(s@),
        -UNIT <= r <= UNIT,
{
    let n: usize = s.len();
    let mut cur: i64 = s[0];
    let mut i: usize = 1;
    proof {
        assert(s@.take(1).len() == 1);
        assert(s@.take(1)[0] == s@[0]);
        assert(valid_sample(s@[0]));
    }
    while i < n
        invariant
            n == s@.len(),
            1 <= i <= n,
            all_valid(s@),
            cur == max_of(s@.take(i as int)),
            -UNIT <= cur <= UNIT,
        decreases n - i,
    {
        proof {
            assert(s@.take(i as int + 1).drop_last() =~= s@.take(i as int));
            assert(s@.take(i as int + 1).last() == s@[i as int]);
            assert(valid_sample(s@[i as int]));
        }
        if s[i] > cur {
            cur = s[i];
        }
        i = i + 1;
    }
    proof {
        assert(s@.take(n as int) =~= s@);
    }
    cur
}

pub fn min_sample(s: &Vec<i64>) -> (r: i64)
    requires
        1 <= s@.len(),
        all_valid(s@),
    ensures
        r == min_of(s@),
        -UNIT <= r <= UNIT,
{
    let n: usize = s.len();
    let mut cur: i64 = s[0];
    let mut i: usize = 1;
    proof {
        assert(s@.take(1).len() == 1);
        assert(s@.take(1)[0] == s@[0]);
        assert(valid_sample(s@[0]));
    }
    while i < n
        invariant
            n == s@.len(),
            1 <= i <= n,
            all_valid(s@),
            cur == min_of(s@.take(i as int)),
            -UNIT <= cur <= UNIT,
        decreases n - i,
    {
        proof {
            assert(s@.take(i as int + 1).drop_last() =~= s@.take(i as int));
            assert(s@.take(i as int + 1).last() == s@[i as int]);
            assert(valid_sample(s@[i as int]));
        }
        if s[i] < cur {
            cur = s[i];
        }
        i = i + 1;
    }
    proof {
        assert(s@.take(n as int) =~= s@);
    }
    cur
}

/// The three raw-statistics channels of a buffer snapshot, each in
/// `[0, UNIT]`.
pub fn raw_channels(s: &Vec<i64>) -> (r: (i64, i64, i64))
    requires
        1 <= s@.len() <= MAX_CAPACITY,
        all_valid(s@),
    ensures
        r.0 == raw_channel_0(s@),
        r.1 == raw_channel_1(s@),
        r.2 == raw_channel_2(s@),
        0 <= r.0 <= UNIT,
        0 <= r.1 <= UNIT,
        0 <= r.2 <= UNIT,
{
    let n: usize = s.len();
    let sum: i64 = sum_samples(s);
    let energy: i64 = energy_of(s);
    let mx: i64 = max_sample(s);
    let mn: i64 = min_sample(s);
    proof {
        lemma_sum_bounds(s@);
        assert(UNIT == 10000 && MAX_CAPACITY == 65536);
        assert(UNIT * UNIT == 100000000);
        assert(UNIT * UNIT * (s@.len() as int) == 100000000 * (s@.len() as int));
        vstd::arithmetic::div_mod::lemma_div_nonincreasing(energy as int, n as int);
        vstd::arithmetic::div_mod::lemma_div_pos_is_pos(energy as int, n as int);
    }
    let mean_sq: i64 = energy / (n as i64);
    let rms: i64 = isqrt(mean_sq);
    let c0: i64 = clamp_unit(5 * rms);
    let c1: i64 = clamp_unit((mx - mn) / 2);
    let mean: i64 = if sum >= 0 {
        proof {
            vstd::arithmetic::div_mod::lemma_div_is_ordered(sum as int, UNIT * (n as int), n as int);
            vstd::arithmetic::div_mod::lemma_div_multiples_vanish(UNIT as int, n as int);
            vstd::arithmetic::div_mod::lemma_div_pos_is_pos(sum as int, n as int);
            assert((n as int) * UNIT == UNIT * (n as int)) by (nonlinear_arith);
        }
        sum / (n as i64)
    } else {
        proof {
            vstd::arithmetic::div_mod::lemma_div_is_ordered(
                -(sum as int),
                UNIT * (n as int),
                n as int,
            );
            vstd::arithmetic::div_mod::lemma_div_multiples_vanish(UNIT as int, n as int);
            vstd::arithmetic::div_mod::lemma_div_pos_is_pos(-(sum as int), n as int);
            assert((n as int) * UNIT == UNIT * (n as int)) by (nonlinear_arith);
        }
        -((-sum) / (n as i64))
    };
    let c2: i64 = clamp_unit((mean + UNIT) / 2);
    (c0, c1, c2)
}

/// Pointwise energy dominance carries over to the energy sum.
pub proof fn lemma_sum_sq_dominance(a: Seq<i64>, b: Seq<i64>)
    requires
        a.len() == b.len(),
        forall|i: int| 0 <= i < b.len() ==> #[trigger] (b[i] * b[i]) <= a[i] * a[i],
    ensures
        sum_sq(b) <= sum_sq(a),
    decreases a.len(),
{
    if a.len() > 0 {
        assert(forall|i: int|
            0 <= i < b.len() - 1 ==> b.drop_last()[i] == #[trigger] b[i]
                && a.drop_last()[i] == a[i]);
        lemma_sum_sq_dominance(a.drop_last(), b.drop_last());
        assert(b.last() * b.last() <= a.last() * a.last());
    }
}

/// Loudness monotonicity: if every sample of `a` is at least as large in
/// magnitude as the corresponding sample of `b`, the loudness channel of `a`
/// is at least that of `b`. Saturation can only make the two equal, never
/// reverse them.
pub proof fn lemma_loudness_monotone(a: Seq<i64>, b: Seq<i64>)
    requires
        a.len() == b.len(),
        a.len() >= 1,
        forall|i: int| 0 <= i < b.len() ==> #[trigger] (b[i] * b[i]) <= a[i] * a[i],
    ensures
        raw_channel_0(b) <= raw_channel_0(a),
{
    let n = a.len() as int;
    lemma_sum_sq_dominance(a, b);
    lemma_sum_sq_nonneg(b);
    vstd::arithmetic::div_mod::lemma_div_is_ordered(sum_sq(b), sum_sq(a), n);
    vstd::arithmetic::div_mod::lemma_div_pos_is_pos(sum_sq(b), n);
    lemma_sqrt_floor_monotone(sum_sq(b) / n, sum_sq(a) / n);
}

/// Loudness monotonicity under uniform scaling: amplifying every sample by
/// the same integer factor `k >= 1` never lowers the loudness channel.
pub proof fn lemma_loudness_scale(b: Seq<i64>, a: Seq<i64>, k: int)
    requires
        a.len() == b.len(),
        a.len() >= 1,
        k >= 1,
        forall|i: int| 0 <= i < b.len() ==> a[i] == k * b[i],
    ensures
        raw_channel_0(a) >= raw_channel_0(b),
{
    assert forall|i: int| 0 <= i < b.len() implies #[trigger] (b[i] * b[i]) <= a[i] * a[i] by {
        assert(b[i] * b[i] <= (k * b[i]) * (k * b[i])) by (nonlinear_arith)
            requires
                k >= 1,
        ;
    }
    lemma_loudness_monotone(a, b);
}

/// Silence: on an all-zero buffer the loudness and dynamic-range channels
/// are exactly zero, and the DC-offset-mapped level sits at its midpoint
/// `UNIT / 2` (a zero mean maps to 0.5, by design of that channel).
pub proof fn lemma_silence_raw(s: Seq<i64>)
    requires
        s.len() >= 1,
        forall|i: int| 0 <= i < s.len() ==> s[i] == 0,
    ensures
        raw_channel_0(s) == 0,
        raw_channel_1(s) == 0,
        raw_channel_2(s) == UNIT / 2,
{
    let n = s.len() as int;
    lemma_zero_sums(s);
    vstd::arithmetic::div_mod::lemma_div_of0(n);
    lemma_sqrt_floor_bounds(0);
    assert(sqrt_floor(0) == 0);
    assert(raw_channel_2(s) == clamp_unit_spec((0 + UNIT) / 2));
}

/// On an all-zero sequence every statistic vanishes.
pub proof fn lemma_zero_sums(s: Seq<i64>)
    requires
        forall|i: int| 0 <= i < s.len() ==> s[i] == 0,
    ensures
        sum_of(s) == 0,
        sum_sq(s) == 0,
        s.len() >= 1 ==> max_of(s) == 0,
        s.len() >= 1 ==> min_of(s) == 0,
    decreases s.len(),
{
    if s.len() > 0 {
        assert(forall|i: int| 0 <= i < s.len() - 1 ==> s.drop_last()[i] == #[trigger] s[i]);
        lemma_zero_sums(s.drop_last());
        assert(s.last() == 0);
    }
}

} // verus!
