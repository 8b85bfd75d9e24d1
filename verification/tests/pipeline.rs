use audio_viz_core::capture::CaptureFifo;
use audio_viz_core::pipeline::{AnalysisResult, AudioTap, Mode, VisualizerCore};
use audio_viz_core::tap::SynthOscillator;

fn captured_core(capacity: usize, mode: Mode) -> VisualizerCore {
    VisualizerCore::new(capacity, AudioTap::Captured(CaptureFifo::new(capacity)), mode)
}

#[test]
fn initial_result_is_zero() {
    let core = captured_core(256, Mode::SpectralBands);
    let r: AnalysisResult = core.read_result();
    assert_eq!(r.channel_0, 0);
    assert_eq!(r.channel_1, 0);
    assert_eq!(r.channel_2, 0);
    assert_eq!(r.timestamp, 0);
}

#[test]
fn silence_spectral_all_channels_zero() {
    // A zero-primed 256-sample buffer at 44100 Hz in SpectralBands mode
    // publishes exactly 0.0 on all three channels.
    let mut core = captured_core(256, Mode::SpectralBands);
    core.tick(5, 44100);
    let r = core.read_result();
    assert_eq!(r.channel_0, 0);
    assert_eq!(r.channel_1, 0);
    assert_eq!(r.channel_2, 0);
    assert_eq!(r.timestamp, 5);
}

#[test]
fn silence_stays_converged_over_cycles_and_modes() {
    // Feeding silence for any number of cycles keeps the loudness and
    // dynamic-range channels at zero in both modes; the spectral channels
    // are all zero, and the raw DC-mapped level sits at its 0.5 midpoint.
    let mut core = captured_core(64, Mode::SpectralBands);
    for t in 0..5u64 {
        core.tick(t, 44100);
        let r = core.read_result();
        assert_eq!(r.channel_0, 0);
        assert_eq!(r.channel_1, 0);
        assert_eq!(r.channel_2, 0);
    }
    core.set_mode(Mode::RawAmplitude);
    for t in 5..10u64 {
        core.tick(t, 44100);
        let r = core.read_result();
        assert_eq!(r.channel_0, 0);
        assert_eq!(r.channel_1, 0);
        assert_eq!(r.channel_2, 5000);
    }
}

#[test]
fn sine_tap_mid_band_dominates() {
    // A 440 Hz synthesized sine at 44100 Hz: after 256 samples the Mid
    // channel is strictly greater than both Bass and Treble.
    let tap = AudioTap::Synthesized(SynthOscillator::new(440));
    let mut core = VisualizerCore::new(256, tap, Mode::RawAmplitude);
    for t in 0..255u64 {
        core.tick(t, 44100);
    }
    core.set_mode(Mode::SpectralBands);
    core.tick(255, 44100);
    let r = core.read_result();
    assert!(r.channel_1 > 0);
    assert!(r.channel_1 > r.channel_0, "mid {} vs bass {}", r.channel_1, r.channel_0);
    assert!(r.channel_1 > r.channel_2, "mid {} vs treble {}", r.channel_1, r.channel_2);
}

#[test]
fn full_scale_constant_raw_zero_dynamic_range() {
    // All samples equal 1.0: the dynamic-range channel is 0 since max==min.
    let mut core = captured_core(4, Mode::RawAmplitude);
    for _ in 0..4 {
        core.capture_sample(10000);
    }
    core.tick(1, 44100);
    let r = core.read_result();
    assert_eq!(r.channel_1, 0);
    assert_eq!(r.channel_0, 10000);
    assert_eq!(r.channel_2, 10000);
}

#[test]
fn underrun_retains_buffer_and_still_publishes() {
    // A cycle with zero available captured samples leaves the buffer
    // contents as they were, completes, and publishes a fresh result.
    let mut core = captured_core(4, Mode::RawAmplitude);
    core.capture_sample(1000);
    core.capture_sample(2000);
    core.capture_sample(3000);
    core.capture_sample(4000);
    core.tick(1, 44100);
    let first = core.read_result();
    // the capture queue is now empty: an entire cycle of under-run
    core.tick(2, 44100);
    let second = core.read_result();
    assert_eq!(second.timestamp, 2);
    assert_eq!(second.channel_0, first.channel_0);
    assert_eq!(second.channel_1, first.channel_1);
    assert_eq!(second.channel_2, first.channel_2);
}

#[test]
fn mode_switch_keeps_buffer() {
    // Switching the mode never touches the buffer: the raw channels after
    // the switch reflect the same contents the spectral cycle used.
    let mut core = captured_core(4, Mode::SpectralBands);
    for s in [10000i64, -10000, 10000, -10000] {
        core.capture_sample(s);
    }
    core.tick(1, 1000);
    core.set_mode(Mode::RawAmplitude);
    // under-run: nothing new is pulled, the buffer stays as it was
    core.tick(2, 1000);
    let r = core.read_result();
    assert_eq!(r.channel_0, 10000); // rms of a full-scale square wave
    assert_eq!(r.channel_1, 10000); // full dynamic range
    assert_eq!(r.channel_2, 5000); // zero mean maps to the midpoint
}

#[test]
fn synthesized_tap_emits_exact_quarter_turns() {
    // A 250 Hz oscillator at 1000 Hz sample rate hits the exact quarter
    // turn points of the fixed-point sine.
    let mut osc = SynthOscillator::new(250);
    let expected = [0i64, 10000, 0, -10000, 0, 10000];
    for e in expected {
        assert_eq!(osc.next_sample(1000), e);
    }
}
