//! Spectral Analyzer: a forward discrete Fourier transform over the buffer
//! contents, aggregated into named frequency bands.
//!
//! The buffer is treated as a real signal; for each output bin `k` the
//! transform sums `s[t] * e^(-2 pi i k t / n)` in fixed point, and the bin
//! magnitude is the integer square root of `re^2 + im^2`. Bin `k` represents
//! the frequency `k * sample_rate / n` Hz and its magnitude is accumulated
//! into whichever band's half-open interval contains that frequency — Bass
//! `[20, 250)`, Mid `[250, 4000)`, Treble `[4000, 20000)`; bins outside all
//! three are discarded. No window function is applied, a deliberate
//! simplification, and bins above the Nyquist frequency are classified like
//! any others, an accepted approximation for real input. A band's output is
//! the average magnitude of its bins (zero when it has none), then
//! amplified, log-compressed and clamped by the post-processing stage.

use vstd::prelude::*;

use crate::fixed::{
    abs_val, all_valid, clamp_unit, clamp_unit_spec, compress, compress_spec, isqrt,
    lemma_compress_spec_zero, lemma_sqrt_floor_unique, sqrt_floor, valid_sample, UNIT,
};
use crate::ring::MAX_CAPACITY;
use crate::trig::{
    cosine_frac, cosine_frac_spec, lemma_cosine_frac_range, lemma_sine_frac_range, sine_frac,
    sine_frac_spec,
};

verus! {

/// The named frequency bands.
#[derive(Clone, Copy, Debug, PartialEq, Eq, Structural)]
pub enum FrequencyBand {
    Bass,
    Mid,
    Treble,
}

/// Whether bin `i` of an `n`-point transform at `sr` Hz falls in the
/// half-open frequency interval `[lo, hi)` Hz: `lo <= i * sr / n < hi`,
/// compared exactly as `lo * n <= i * sr < hi * n`.
pub open spec fn in_band(i: int, sr: int, n: int, lo: int, hi: int) -> bool {
    lo * n <= i * sr < hi * n
}

/// The band containing bin `i`'s frequency, if any.
pub open spec fn band_of(i: int, sr: int, n: int) -> Option<FrequencyBand> {
    if in_band(i, sr, n, 20, 250) {
        Some(FrequencyBand::Bass)
    } else if in_band(i, sr, n, 250, 4000) {
        Some(FrequencyBand::Mid)
    } else if in_band(i, sr, n, 4000, 20000) {
        Some(FrequencyBand::Treble)
    } else {
        None
    }
}

/// Band partition: the three intervals are pairwise disjoint, so a bin's
/// frequency falls into at most one band, and each interval is half-open:
/// a bin at exactly 250 Hz belongs to Mid, not Bass, and one at exactly
/// 4000 Hz to Treble, not Mid.
pub proof fn lemma_band_partition(i: int, sr: int, n: int)
    ensures
        !(in_band(i, sr, n, 20, 250) && in_band(i, sr, n, 250, 4000)),
        !(in_band(i, sr, n, 250, 4000) && in_band(i, sr, n, 4000, 20000)),
        !(in_band(i, sr, n, 20, 250) && in_band(i, sr, n, 4000, 20000)),
        in_band(i, sr, n, 20, 250) ==> band_of(i, sr, n) == Some(FrequencyBand::Bass),
        in_band(i, sr, n, 250, 4000) ==> band_of(i, sr, n) == Some(FrequencyBand::Mid),
        in_band(i, sr, n, 4000, 20000) ==> band_of(i, sr, n) == Some(FrequencyBand::Treble),
        n >= 1 && i * sr == 250 * n ==> band_of(i, sr, n) == Some(FrequencyBand::Mid),
        n >= 1 && i * sr == 4000 * n ==> band_of(i, sr, n) == Some(FrequencyBand::Treble),
{
}

/// Classify one bin by its frequency.
pub fn classify_bin(i: usize, sample_rate: u32, n: usize) -> (r: Option<FrequencyBand>)
    requires
        1 <= n <= MAX_CAPACITY,
        i < n,
    ensures
        r == band_of(i as int, sample_rate as int, n as int),
{
    proof {
        assert((i as int) * (sample_rate as int) <= 65536 * 4294967295) by (nonlinear_arith)
            requires
                0 <= i as int <= 65536,
                0 <= sample_rate as int <= 4294967295,
        ;
    }
    let f: u64 = (i as u64) * (sample_rate as u64);
    let nn: u64 = n as u64;
    if 20 * nn <= f && f < 250 * nn {
        Some(FrequencyBand::Bass)
    } else if 250 * nn <= f && f < 4000 * nn {
        Some(FrequencyBand::Mid)
    } else if 4000 * nn <= f && f < 20000 * nn {
        Some(FrequencyBand::Treble)
    } else {
        None
    }
}

/// Fixed-point cosine sum of the transform at bin `k` over the first `j`
/// samples: `sum s[t] * cos(2 pi k t / n)`, scaled by `UNIT` twice (once
/// for the sample, once for the cosine).
pub open spec fn dft_re_sum(s: Seq<i64>, k: int, j: int) -> int
    decreases j,
{
    if j <= 0 {
        0
    } else {
        dft_re_sum(s, k, j - 1) + s[j - 1] * cosine_frac_spec(
            (k * (j - 1)) % (s.len() as int),
            s.len() as int,
        )
    }
}

/// Companion sine sum; the transform's imaginary part is its negation,
/// which has the same magnitude.
pub open spec fn dft_im_sum(s: Seq<i64>, k: int, j: int) -> int
    decreases j,
{
    if j <= 0 {
        0
    } else {
        dft_im_sum(s, k, j - 1) + s[j - 1] * sine_frac_spec(
            (k * (j - 1)) % (s.len() as int),
            s.len() as int,
        )
    }
}

/// Magnitude of bin `k`: scale both sums back to sample units and take the
/// integer square root of the sum of their squares.
pub open spec fn bin_mag(s: Seq<i64>, k: int) -> int {
    let re = abs_val(dft_re_sum(s, k, s.len() as int)) / (UNIT as int);
    let im = abs_val(dft_im_sum(s, k, s.len() as int)) / (UNIT as int);
    sqrt_floor(re * re + im * im)
}

/// Compute the magnitude of one transform bin.
pub fn bin_magnitude(s: &Vec<i64>, k: usize) -> (r: i64)
    requires
        1 <= s@.len() <= MAX_CAPACITY,
        all_valid(s@),
        k < s@.len(),
    ensures
        r == bin_mag(s@, k as int),
        0 <= r < 0x4000_0000,
{
    let n: usize = s.len();
    let mut acc_re: i64 = 0;
    let mut acc_im: i64 = 0;
    let mut j: usize = 0;
    while j < n
        invariant
            n == s@.len(),
            1 <= n <= MAX_CAPACITY,
            all_valid(s@),
            k < n,
            j <= n,
            acc_re == dft_re_sum(s@, k as int, j as int),
            acc_im == dft_im_sum(s@, k as int, j as int),
            -100000000 * (j as int) <= acc_re <= 100000000 * (j as int),
            -100000000 * (j as int) <= acc_im <= 100000000 * (j as int),
        decreases n - j,
    {
        proof {
            assert((k as int) * (j as int) <= 65536 * 65536) by (nonlinear_arith)
                requires
                    0 <= k as int <= 65536,
                    0 <= j as int <= 65536,
            ;
            vstd::arithmetic::div_mod::lemma_mod_division_less_than_divisor(
                (k as int) * (j as int),
                n as int,
            );
            lemma_cosine_frac_range(((k as int) * (j as int)) % (n as int), n as int);
            lemma_sine_frac_range(((k as int) * (j as int)) % (n as int), n as int);
            assert(valid_sample(s@[j as int]));
            assert(UNIT == 10000);
        }
        let idx: u64 = ((k as u64) * (j as u64)) % (n as u64);
        let c: i64 = cosine_frac(idx, n as u64);
        let sn: i64 = sine_frac(idx, n as u64);
        proof {
            assert(-100000000 <= s@[j as int] * (c as int) <= 100000000) by (nonlinear_arith)
                requires
                    -10000 <= s@[j as int] <= 10000,
                    -10000 <= c as int <= 10000,
            ;
            assert(-100000000 <= s@[j as int] * (sn as int) <= 100000000) by (nonlinear_arith)
                requires
                    -10000 <= s@[j as int] <= 10000,
                    -10000 <= sn as int <= 10000,
            ;
        }
        acc_re = acc_re + s[j] * c;
        acc_im = acc_im + s[j] * sn;
        j = j + 1;
    }
    let abs_re: i64 = if acc_re < 0 {
        -acc_re
    } else {
        acc_re
    };
    let abs_im: i64 = if acc_im < 0 {
        -acc_im
    } else {
        acc_im
    };
    proof {
        assert(UNIT == 10000);
        assert((10000 * (n as int)) * UNIT == 100000000 * (n as int)) by (nonlinear_arith)
            requires
                UNIT == 10000,
        ;
        vstd::arithmetic::div_mod::lemma_div_by_multiple(10000 * (n as int), UNIT as int);
        vstd::arithmetic::div_mod::lemma_div_is_ordered(
            abs_re as int,
            100000000 * (n as int),
            UNIT as int,
        );
        vstd::arithmetic::div_mod::lemma_div_is_ordered(
            abs_im as int,
            100000000 * (n as int),
            UNIT as int,
        );
        vstd::arithmetic::div_mod::lemma_div_pos_is_pos(abs_re as int, UNIT as int);
        vstd::arithmetic::div_mod::lemma_div_pos_is_pos(abs_im as int, UNIT as int);
    }
    let ra: i64 = abs_re / UNIT;
    let ia: i64 = abs_im / UNIT;
    proof {
        assert(0 <= ra * ra <= 429496729600000000 && 0 <= ia * ia <= 429496729600000000)
            by (nonlinear_arith)
            requires
                0 <= ra <= 655360000,
                0 <= ia <= 655360000,
        ;
    }
    let m2: i64 = ra * ra + ia * ia;
    let mag: i64 = isqrt(m2);
    proof {
        assert(mag < 0x4000_0000) by (nonlinear_arith)
            requires
                0 <= mag,
                mag * mag <= 858993459200000000,
        ;
    }
    mag
}

/// Sum of the magnitudes of the first `j` bins that fall in `band`.
pub open spec fn band_sum(s: Seq<i64>, sr: int, band: FrequencyBand, j: int) -> int
    decreases j,
{
    if j <= 0 {
        0
    } else {
        band_sum(s, sr, band, j - 1) + if band_of(j - 1, sr, s.len() as int) == Some(band) {
            bin_mag(s, j - 1)
        } else {
            0
        }
    }
}

/// Number of the first `j` bins that fall in `band`.
pub open spec fn band_count(s: Seq<i64>, sr: int, band: FrequencyBand, j: int) -> int
    decreases j,
{
    if j <= 0 {
        0
    } else {
        band_count(s, sr, band, j - 1) + if band_of(j - 1, sr, s.len() as int) == Some(band) {
            1int
        } else {
            0int
        }
    }
}

/// Average magnitude of the band's bins, 0 where the band has no bins (the
/// division by a zero bin count is explicitly guarded).
pub open spec fn band_average(s: Seq<i64>, sr: int, band: FrequencyBand) -> int {
    if band_count(s, sr, band, s.len() as int) == 0 {
        0
    } else {
        band_sum(s, sr, band, s.len() as int) / band_count(s, sr, band, s.len() as int)
    }
}

/// Per-band linear amplification: bands whose raw transform magnitude is
/// typically smaller get larger amplification. These are tuning defaults,
/// not semantic invariants.
pub open spec fn band_gain(band: FrequencyBand) -> int {
    match band {
        FrequencyBand::Bass => 1,
        FrequencyBand::Mid => 4,
        FrequencyBand::Treble => 8,
    }
}

/// One post-processed spectral channel: the band average is amplified and
/// normalized by the transform length, clamped into `[0, UNIT]`, then
/// log-compressed.
pub open spec fn spectral_channel(s: Seq<i64>, sr: int, band: FrequencyBand) -> int {
    compress_spec(clamp_unit_spec(band_average(s, sr, band) * band_gain(band) / (s.len() as int)))
}

/// One pass over all bins: per-band magnitude sums and bin counts.
pub fn band_magnitude_totals(s: &Vec<i64>, sample_rate: u32) -> (r: (i64, i64, i64, i64, i64, i64))
    requires
        1 <= s@.len() <= MAX_CAPACITY,
        all_valid(s@),
    ensures
        r.0 == band_sum(s@, sample_rate as int, FrequencyBand::Bass, s@.len() as int),
        r.1 == band_sum(s@, sample_rate as int, FrequencyBand::Mid, s@.len() as int),
        r.2 == band_sum(s@, sample_rate as int, FrequencyBand::Treble, s@.len() as int),
        r.3 == band_count(s@, sample_rate as int, FrequencyBand::Bass, s@.len() as int),
        r.4 == band_count(s@, sample_rate as int, FrequencyBand::Mid, s@.len() as int),
        r.5 == band_count(s@, sample_rate as int, FrequencyBand::Treble, s@.len() as int),
        0 <= r.0 <= 1073741824 * (s@.len() as int),
        0 <= r.1 <= 1073741824 * (s@.len() as int),
        0 <= r.2 <= 1073741824 * (s@.len() as int),
        0 <= r.3 <= s@.len(),
        0 <= r.4 <= s@.len(),
        0 <= r.5 <= s@.len(),
{
    let n: usize = s.len();
    let sr: u32 = sample_rate;
    let mut bass_sum: i64 = 0;
    let mut mid_sum: i64 = 0;
    let mut treble_sum: i64 = 0;
    let mut bass_count: i64 = 0;
    let mut mid_count: i64 = 0;
    let mut treble_count: i64 = 0;
    let mut k: usize = 0;
    while k < n
        invariant
            n == s@.len(),
            1 <= n <= MAX_CAPACITY,
            all_valid(s@),
            k <= n,
            bass_sum == band_sum(s@, sr as int, FrequencyBand::Bass, k as int),
            mid_sum == band_sum(s@, sr as int, FrequencyBand::Mid, k as int),
            treble_sum == band_sum(s@, sr as int, FrequencyBand::Treble, k as int),
            bass_count == band_count(s@, sr as int, FrequencyBand::Bass, k as int),
            mid_count == band_count(s@, sr as int, FrequencyBand::Mid, k as int),
            treble_count == band_count(s@, sr as int, FrequencyBand::Treble, k as int),
            0 <= bass_sum <= 1073741824 * (k as int),
            0 <= mid_sum <= 1073741824 * (k as int),
            0 <= treble_sum <= 1073741824 * (k as int),
            0 <= bass_count <= k,
            0 <= mid_count <= k,
            0 <= treble_count <= k,
        decreases n - k,
    {
        let mag: i64 = bin_magnitude(s, k);
        match classify_bin(k, sr, n) {
            Some(FrequencyBand::Bass) => {
                bass_sum = bass_sum + mag;
                bass_count = bass_count + 1;
            },
            Some(FrequencyBand::Mid) => {
                mid_sum = mid_sum + mag;
                mid_count = mid_count + 1;
            },
            Some(FrequencyBand::Treble) => {
                treble_sum = treble_sum + mag;
                treble_count = treble_count + 1;
            },
            None => {},
        }
        k = k + 1;
    }
    (bass_sum, mid_sum, treble_sum, bass_count, mid_count, treble_count)
}

/// The three post-processed spectral channels of a buffer snapshot, each in
/// `[0, UNIT]`: Bass, Mid, Treble.
pub fn spectral_channels(s: &Vec<i64>, sample_rate: u32) -> (r: (i64, i64, i64))
    requires
        1 <= s@.len() <= MAX_CAPACITY,
        all_valid(s@),
    ensures
        r.0 == spectral_channel(s@, sample_rate as int, FrequencyBand::Bass),
        r.1 == spectral_channel(s@, sample_rate as int, FrequencyBand::Mid),
        r.2 == spectral_channel(s@, sample_rate as int, FrequencyBand::Treble),
        0 <= r.0 <= UNIT,
        0 <= r.1 <= UNIT,
        0 <= r.2 <= UNIT,
{
    let n: usize = s.len();
    let totals = band_magnitude_totals(s, sample_rate);
    let bass_avg: i64 = if totals.3 == 0 {
        0
    } else {
        proof {
            vstd::arithmetic::div_mod::lemma_div_pos_is_pos(totals.0 as int, totals.3 as int);
            vstd::arithmetic::div_mod::lemma_div_nonincreasing(totals.0 as int, totals.3 as int);
        }
        totals.0 / totals.3
    };
    let mid_avg: i64 = if totals.4 == 0 {
        0
    } else {
        proof {
            vstd::arithmetic::div_mod::lemma_div_pos_is_pos(totals.1 as int, totals.4 as int);
            vstd::arithmetic::div_mod::lemma_div_nonincreasing(totals.1 as int, totals.4 as int);
        }
        totals.1 / totals.4
    };
    let treble_avg: i64 = if totals.5 == 0 {
        0
    } else {
        proof {
            vstd::arithmetic::div_mod::lemma_div_pos_is_pos(totals.2 as int, totals.5 as int);
            vstd::arithmetic::div_mod::lemma_div_nonincreasing(totals.2 as int, totals.5 as int);
        }
        totals.2 / totals.5
    };
    // the literal gains match `band_gain` for the respective bands
    let bass_amp: i64 = clamp_unit(bass_avg * 1 / (n as i64));
    let mid_amp: i64 = clamp_unit(mid_avg * 4 / (n as i64));
    let treble_amp: i64 = clamp_unit(treble_avg * 8 / (n as i64));
    let c0: i64 = compress(bass_amp);
    let c1: i64 = compress(mid_amp);
    let c2: i64 = compress(treble_amp);
    (c0, c1, c2)
}

/// Post-processing monotonicity: a larger raw band average never yields a
/// smaller post-processed channel value — amplification, normalization,
/// clamping and log-compression are each monotone.
pub proof fn lemma_postprocess_monotone(avg_a: int, avg_b: int, gain: int, n: int)
    requires
        0 <= avg_b <= avg_a,
        0 <= gain,
        1 <= n,
    ensures
        compress_spec(clamp_unit_spec(avg_b * gain / n)) <= compress_spec(
            clamp_unit_spec(avg_a * gain / n),
        ),
{
    assert(avg_b * gain <= avg_a * gain && 0 <= avg_b * gain) by (nonlinear_arith)
        requires
            0 <= avg_b <= avg_a,
            0 <= gain,
    ;
    vstd::arithmetic::div_mod::lemma_div_is_ordered(avg_b * gain, avg_a * gain, n);
    vstd::arithmetic::div_mod::lemma_div_pos_is_pos(avg_b * gain, n);
    crate::fixed::lemma_compress_monotone(
        clamp_unit_spec(avg_b * gain / n),
        clamp_unit_spec(avg_a * gain / n),
    );
}

/// On an all-zero signal every transform sum, bin magnitude, band total and
/// channel is zero.
pub proof fn lemma_zero_dft(s: Seq<i64>, k: int, j: int)
    requires
        forall|i: int| 0 <= i < s.len() ==> s[i] == 0,
        0 <= j <= s.len(),
    ensures
        dft_re_sum(s, k, j) == 0,
        dft_im_sum(s, k, j) == 0,
    decreases j,
{
    if j > 0 {
        lemma_zero_dft(s, k, j - 1);
        assert(s[j - 1] == 0);
        assert(0 * cosine_frac_spec((k * (j - 1)) % (s.len() as int), s.len() as int) == 0)
            by (nonlinear_arith);
        assert(0 * sine_frac_spec((k * (j - 1)) % (s.len() as int), s.len() as int) == 0)
            by (nonlinear_arith);
    }
}

/// On an all-zero signal every bin magnitude is zero.
pub proof fn lemma_zero_bin_mag(s: Seq<i64>, k: int)
    requires
        forall|i: int| 0 <= i < s.len() ==> s[i] == 0,
    ensures
        bin_mag(s, k) == 0,
{
    lemma_zero_dft(s, k, s.len() as int);
    vstd::arithmetic::div_mod::lemma_div_of0(UNIT as int);
    lemma_sqrt_floor_unique(0, 0);
}

/// On an all-zero signal every band total is zero.
pub proof fn lemma_zero_band_totals(s: Seq<i64>, sr: int, band: FrequencyBand, j: int)
    requires
        forall|i: int| 0 <= i < s.len() ==> s[i] == 0,
        0 <= j <= s.len(),
    ensures
        band_sum(s, sr, band, j) == 0,
    decreases j,
{
    if j > 0 {
        lemma_zero_band_totals(s, sr, band, j - 1);
        lemma_zero_bin_mag(s, j - 1);
    }
}

/// Silence: an all-zero buffer yields zero on all three spectral channels
/// (`log1p(0) == 0`), whatever the sample rate.
pub proof fn lemma_silence_spectral(s: Seq<i64>, sr: int)
    requires
        s.len() >= 1,
        forall|i: int| 0 <= i < s.len() ==> s[i] == 0,
    ensures
        spectral_channel(s, sr, FrequencyBand::Bass) == 0,
        spectral_channel(s, sr, FrequencyBand::Mid) == 0,
        spectral_channel(s, sr, FrequencyBand::Treble) == 0,
{
    let n = s.len() as int;
    lemma_zero_band_totals(s, sr, FrequencyBand::Bass, n);
    lemma_zero_band_totals(s, sr, FrequencyBand::Mid, n);
    lemma_zero_band_totals(s, sr, FrequencyBand::Treble, n);
    lemma_zero_band_average(s, sr, FrequencyBand::Bass);
    lemma_zero_band_average(s, sr, FrequencyBand::Mid);
    lemma_zero_band_average(s, sr, FrequencyBand::Treble);
    lemma_zero_channel(s, sr, FrequencyBand::Bass);
    lemma_zero_channel(s, sr, FrequencyBand::Mid);
    lemma_zero_channel(s, sr, FrequencyBand::Treble);
}

/// A band whose magnitude sum is zero averages to zero.
proof fn lemma_zero_band_average(s: Seq<i64>, sr: int, band: FrequencyBand)
    requires
        forall|i: int| 0 <= i < s.len() ==> s[i] == 0,
    ensures
        band_average(s, sr, band) == 0,
{
    let n = s.len() as int;
    lemma_zero_band_totals(s, sr, band, n);
    if band_count(s, sr, band, n) != 0 {
        vstd::arithmetic::div_mod::lemma_div_of0(band_count(s, sr, band, n));
    }
}

/// A zero band average post-processes to a zero channel.
proof fn lemma_zero_channel(s: Seq<i64>, sr: int, band: FrequencyBand)
    requires
        s.len() >= 1,
        band_average(s, sr, band) == 0,
    ensures
        spectral_channel(s, sr, band) == 0,
{
    let n = s.len() as int;
    assert(0 * band_gain(band) == 0) by (nonlinear_arith);
    vstd::arithmetic::div_mod::lemma_div_of0(n);
    lemma_compress_spec_zero();
}

} // verus!
