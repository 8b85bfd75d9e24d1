//! Synthesized Audio Tap: a deterministic sine oscillator.
//!
//! The sample is computed analytically from the oscillator frequency and
//! the phase accumulated so far — reproducible, with no dependency on any
//! audio backend state. Phase is kept as a fraction of a turn with the
//! sample rate as denominator, so a cycle of `sample_rate` samples advances
//! the phase by exactly `freq_hz` turns.

use vstd::prelude::*;

use crate::fixed::valid_sample;
use crate::trig::{sine_frac, sine_frac_spec, MAX_ANGLE_DEN};

verus! {

pub struct SynthOscillator {
    freq_hz: u32,
    phase: u32,
}

impl SynthOscillator {
    pub closed spec fn freq_spec(&self) -> int {
        self.freq_hz as int
    }

    pub closed spec fn phase_spec(&self) -> int {
        self.phase as int
    }

    /// The sample emitted at phase `phase` of a `sr`-denominator turn:
    /// `sin(2 pi phase / sr)` in fixed point.
    pub open spec fn sample_at(phase: int, sr: int) -> int {
        sine_frac_spec(phase % sr, sr)
    }

    pub fn new(freq_hz: u32) -> (r: Self)
        ensures
            r.freq_spec() == freq_hz,
            r.phase_spec() == 0,
    {
        SynthOscillator { freq_hz, phase: 0 }
    }

    /// Emit one sample and advance the phase by `freq_hz` sample-rate units.
    pub fn next_sample(&mut self, sample_rate: u32) -> (s: i64)
        requires
            1 <= sample_rate <= MAX_ANGLE_DEN,
        ensures
            s == Self::sample_at(old(self).phase_spec(), sample_rate as int),
            valid_sample(s),
            final(self).freq_spec() == old(self).freq_spec(),
            final(self).phase_spec() == (old(self).phase_spec() + old(self).freq_spec()) % (
            sample_rate as int),
    {
        let sr: u32 = sample_rate;
        proof {
            vstd::arithmetic::div_mod::lemma_mod_division_less_than_divisor(
                self.phase as int,
                sr as int,
            );
            vstd::arithmetic::div_mod::lemma_mod_division_less_than_divisor(
                self.phase as int + self.freq_hz as int,
                sr as int,
            );
        }
        let ph: u32 = self.phase % sr;
        let s: i64 = sine_frac(ph as u64, sr as u64);
        self.phase = (((self.phase as u64) + (self.freq_hz as u64)) % (sr as u64)) as u32;
        s
    }
}

} // verus!
