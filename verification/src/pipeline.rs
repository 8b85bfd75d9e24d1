//! The visualization pipeline: runtime mode, the published analysis result,
//! the audio tap, and the per-cycle `tick` that feeds the buffer, runs the
//! selected analyzer, post-processes and publishes.
//!
//! The published record is replaced wholesale once per cycle — a reader
//! never sees a mix of old and new channel values. Changing the mode only
//! changes which analyzer consumes the existing buffer on the next cycle.

use vstd::prelude::*;

use crate::capture::CaptureFifo;
use crate::fixed::{all_valid, valid_sample, UNIT};
use crate::ring::{fed, lemma_fed_silence, RingSampleBuffer, MAX_CAPACITY};
use crate::spectral::{
    lemma_silence_spectral, spectral_channel, spectral_channels, FrequencyBand,
};
use crate::stats::{
    lemma_silence_raw, raw_channel_0, raw_channel_1, raw_channel_2, raw_channels,
};
use crate::tap::SynthOscillator;
use crate::trig::MAX_ANGLE_DEN;

verus! {

/// Which analyzer consumes the buffer; read at the top of each cycle.
#[derive(Clone, Copy, Debug, PartialEq, Eq, Structural)]
pub enum Mode {
    RawAmplitude,
    SpectralBands,
}

/// The published analysis result: three bounded channels and the timestamp
/// of the cycle that produced them.
#[derive(Clone, Copy, Debug, PartialEq, Eq, Structural)]
pub struct AnalysisResult {
    pub channel_0: i64,
    pub channel_1: i64,
    pub channel_2: i64,
    pub timestamp: u64,
}

/// Every channel lies in the renderer-friendly range `[0, UNIT]`.
pub open spec fn result_in_range(r: AnalysisResult) -> bool {
    0 <= r.channel_0 <= UNIT && 0 <= r.channel_1 <= UNIT && 0 <= r.channel_2 <= UNIT
}

/// The sound source the feeder drains once per cycle: a deterministic
/// synthesized oscillator, or a capture queue filled by the live audio
/// render path.
pub enum AudioTap {
    Synthesized(SynthOscillator),
    Captured(CaptureFifo),
}

impl AudioTap {
    pub open spec fn wf(&self) -> bool {
        match self {
            AudioTap::Synthesized(_) => true,
            AudioTap::Captured(fifo) => fifo.wf(),
        }
    }
}

/// The samples one cycle pulls from the tap: one synthesized sample, or up
/// to `cap` of the oldest captured samples (fewer on under-run, none when
/// the capture source is empty).
pub open spec fn cycle_input(t: AudioTap, sr: int, cap: int) -> Seq<i64> {
    match t {
        AudioTap::Synthesized(osc) => seq![
            SynthOscillator::sample_at(osc.phase_spec(), sr) as i64,
        ],
        AudioTap::Captured(fifo) => fifo.contents().take(
            if fifo.contents().len() <= cap {
                fifo.contents().len() as int
            } else {
                cap
            },
        ),
    }
}

/// Idempotence of silence: feeding an all-zero signal into a silent buffer
/// keeps the buffer silent on every cycle, so under either mode the
/// published channels stay converged: the three spectral channels and the
/// raw loudness and dynamic-range channels are exactly zero. The raw
/// DC-offset-mapped level sits at its `UNIT / 2` midpoint, since that
/// channel maps a zero mean to 0.5 by definition.
pub proof fn lemma_silence_converges(b: Seq<i64>, q: Seq<i64>, sr: int)
    requires
        b.len() >= 1,
        forall|i: int| 0 <= i < b.len() ==> b[i] == 0,
        forall|i: int| 0 <= i < q.len() ==> q[i] == 0,
    ensures
        fed(b, q).len() == b.len(),
        forall|i: int| 0 <= i < fed(b, q).len() ==> fed(b, q)[i] == 0,
        raw_channel_0(fed(b, q)) == 0,
        raw_channel_1(fed(b, q)) == 0,
        raw_channel_2(fed(b, q)) == UNIT / 2,
        spectral_channel(fed(b, q), sr, FrequencyBand::Bass) == 0,
        spectral_channel(fed(b, q), sr, FrequencyBand::Mid) == 0,
        spectral_channel(fed(b, q), sr, FrequencyBand::Treble) == 0,
{
    lemma_fed_silence(b, q);
    lemma_silence_raw(fed(b, q));
    lemma_silence_spectral(fed(b, q), sr);
}

/// The audio-reactive visualization core: ring buffer, tap, mode switch and
/// the published result, advanced one cycle at a time by [`Self::tick`].
pub struct VisualizerCore {
    buffer: RingSampleBuffer,
    tap: AudioTap,
    mode: Mode,
    result: AnalysisResult,
}

impl VisualizerCore {
    pub closed spec fn buffer_contents(&self) -> Seq<i64> {
        self.buffer.contents()
    }

    pub closed spec fn mode_spec(&self) -> Mode {
        self.mode
    }

    pub closed spec fn result_spec(&self) -> AnalysisResult {
        self.result
    }

    pub closed spec fn tap_spec(&self) -> AudioTap {
        self.tap
    }

    pub open spec fn wf(&self) -> bool {
        &&& 1 <= self.buffer_contents().len() <= MAX_CAPACITY
        &&& all_valid(self.buffer_contents())
        &&& self.tap_spec().wf()
        &&& result_in_range(self.result_spec())
    }

    /// A new core over a zero-primed buffer, publishing an all-zero result
    /// until the first cycle runs.
    pub fn new(capacity: usize, tap: AudioTap, mode: Mode) -> (r: Self)
        requires
            1 <= capacity <= MAX_CAPACITY,
            tap.wf(),
        ensures
            r.wf(),
            r.mode_spec() == mode,
            r.tap_spec() == tap,
            r.buffer_contents().len() == capacity,
            forall|i: int| 0 <= i < capacity ==> r.buffer_contents()[i] == 0,
            r.result_spec() == (AnalysisResult {
                channel_0: 0,
                channel_1: 0,
                channel_2: 0,
                timestamp: 0,
            }),
    {
        VisualizerCore {
            buffer: RingSampleBuffer::new(capacity),
            tap,
            mode,
            result: AnalysisResult { channel_0: 0, channel_1: 0, channel_2: 0, timestamp: 0 },
        }
    }

    /// Select which analyzer runs, effective at the next cycle; the buffer
    /// contents and the published result are untouched.
    pub fn set_mode(&mut self, mode: Mode)
        requires
            old(self).wf(),
        ensures
            final(self).wf(),
            final(self).mode_spec() == mode,
            final(self).buffer_contents() == old(self).buffer_contents(),
            final(self).tap_spec() == old(self).tap_spec(),
            final(self).result_spec() == old(self).result_spec(),
    {
        self.mode = mode;
    }

    /// Non-blocking read of the most recently published result; its
    /// channels always lie in `[0, UNIT]`.
    pub fn read_result(&self) -> (r: AnalysisResult)
        requires
            self.wf(),
        ensures
            r == self.result_spec(),
            result_in_range(r),
    {
        self.result
    }

    /// Hand one sample from the audio render path to a captured tap; a
    /// synthesized tap ignores it. Never waits, and touches nothing else.
    pub fn capture_sample(&mut self, s: i64)
        requires
            old(self).wf(),
            valid_sample(s),
        ensures
            final(self).wf(),
            final(self).mode_spec() == old(self).mode_spec(),
            final(self).buffer_contents() == old(self).buffer_contents(),
            final(self).result_spec() == old(self).result_spec(),
            old(self).tap_spec() matches AudioTap::Synthesized(_) ==> final(self).tap_spec()
                == old(self).tap_spec(),
            old(self).tap_spec() matches AudioTap::Captured(f0) ==> final(self).tap_spec()
                matches AudioTap::Captured(f1) && f1.capacity_spec() == f0.capacity_spec()
                && f1.contents() == (if f0.contents().len() < f0.capacity_spec() {
                f0.contents().push(s)
            } else {
                f0.contents().skip(1).push(s)
            }),
    {
        match &mut self.tap {
            AudioTap::Synthesized(_) => {},
            AudioTap::Captured(fifo) => {
                fifo.push_captured(s);
            },
        }
    }

    /// Advance one visualization cycle: drain the tap into the ring buffer,
    /// run the analyzer selected by the mode on a snapshot, post-process,
    /// and publish a fresh result stamped with `elapsed_time`. A cycle
    /// always completes; an empty capture source leaves the buffer as it
    /// was and the analyzers run on the retained contents.
    pub fn tick(&mut self, elapsed_time: u64, sample_rate: u32)
        requires
            old(self).wf(),
            1 <= sample_rate,
            old(self).tap_spec() matches AudioTap::Synthesized(_) ==> sample_rate
                <= MAX_ANGLE_DEN,
        ensures
            final(self).wf(),
            final(self).mode_spec() == old(self).mode_spec(),
            // the buffer slides over the samples pulled from the tap
            final(self).buffer_contents() == fed(
                old(self).buffer_contents(),
                cycle_input(
                    old(self).tap_spec(),
                    sample_rate as int,
                    old(self).buffer_contents().len() as int,
                ),
            ),
            final(self).buffer_contents().len() == old(self).buffer_contents().len(),
            // the tap advances: the oscillator phase moves, the queue drains
            old(self).tap_spec() matches AudioTap::Synthesized(o0) ==> final(self).tap_spec()
                matches AudioTap::Synthesized(o1) && o1.freq_spec() == o0.freq_spec()
                && o1.phase_spec() == (o0.phase_spec() + o0.freq_spec()) % (sample_rate as int),
            old(self).tap_spec() matches AudioTap::Captured(f0) ==> final(self).tap_spec()
                matches AudioTap::Captured(f1) && f1.capacity_spec() == f0.capacity_spec()
                && f1.contents() == f0.contents().skip(
                cycle_input(
                    old(self).tap_spec(),
                    sample_rate as int,
                    old(self).buffer_contents().len() as int,
                ).len() as int,
            ),
            // a fresh result is published, computed by the selected analyzer
            // from the updated buffer
            final(self).result_spec().timestamp == elapsed_time,
            final(self).mode_spec() == Mode::RawAmplitude ==> {
                &&& final(self).result_spec().channel_0 == raw_channel_0(
                    final(self).buffer_contents(),
                )
                &&& final(self).result_spec().channel_1 == raw_channel_1(
                    final(self).buffer_contents(),
                )
                &&& final(self).result_spec().channel_2 == raw_channel_2(
                    final(self).buffer_contents(),
                )
            },
            final(self).mode_spec() == Mode::SpectralBands ==> {
                &&& final(self).result_spec().channel_0 == spectral_channel(
                    final(self).buffer_contents(),
                    sample_rate as int,
                    FrequencyBand::Bass,
                )
                &&& final(self).result_spec().channel_1 == spectral_channel(
                    final(self).buffer_contents(),
                    sample_rate as int,
                    FrequencyBand::Mid,
                )
                &&& final(self).result_spec().channel_2 == spectral_channel(
                    final(self).buffer_contents(),
                    sample_rate as int,
                    FrequencyBand::Treble,
                )
            },
    {
        let cap: usize = self.buffer.capacity();
        let ghost tap0 = self.tap;
        let pulled: Vec<i64> = match &mut self.tap {
            AudioTap::Synthesized(osc) => {
                let s: i64 = osc.next_sample(sample_rate);
                let mut v: Vec<i64> = Vec::new();
                v.push(s);
                proof {
                    assert(v@ =~= cycle_input(tap0, sample_rate as int, cap as int));
                }
                v
            },
            AudioTap::Captured(fifo) => {
                let v: Vec<i64> = fifo.drain(cap);
                proof {
                    assert(v@ =~= cycle_input(tap0, sample_rate as int, cap as int));
                    assert(all_valid(v@)) by {
                        assert(forall|i: int|
                            0 <= i < v@.len() ==> v@[i] == old(self).tap_spec()->Captured_0
                                .contents()[i]);
                    }
                }
                v
            },
        };
        self.buffer.push_all(&pulled);
        let channels: (i64, i64, i64) = match self.mode {
            Mode::RawAmplitude => raw_channels(self.buffer.snapshot()),
            Mode::SpectralBands => spectral_channels(self.buffer.snapshot(), sample_rate),
        };
        self.result = AnalysisResult {
            channel_0: channels.0,
            channel_1: channels.1,
            channel_2: channels.2,
            timestamp: elapsed_time,
        };
    }
}

} // verus!
