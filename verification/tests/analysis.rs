use audio_viz_core::spectral::{classify_bin, spectral_channels, FrequencyBand};
use audio_viz_core::stats::raw_channels;

#[test]
fn band_edges_are_half_open() {
    // 4-point transform at 1000 Hz: bin 1 sits at exactly 250 Hz and
    // belongs to Mid, not Bass.
    assert!(matches!(classify_bin(1, 1000, 4), Some(FrequencyBand::Mid)));
    // 10-point transform at 40000 Hz: bin 1 sits at exactly 4000 Hz and
    // belongs to Treble, not Mid; bin 5 sits at exactly 20000 Hz and is
    // outside every band.
    assert!(matches!(classify_bin(1, 40000, 10), Some(FrequencyBand::Treble)));
    assert!(matches!(classify_bin(5, 40000, 10), None));
    // 100-point transform at 2000 Hz: bin 1 sits at exactly 20 Hz, the
    // closed lower edge of Bass.
    assert!(matches!(classify_bin(1, 2000, 100), Some(FrequencyBand::Bass)));
    // bin 0 is 0 Hz, below every band
    assert!(matches!(classify_bin(0, 44100, 256), None));
    // 172 Hz (bin 1 of a 256-point transform at 44100 Hz) is Bass
    assert!(matches!(classify_bin(1, 44100, 256), Some(FrequencyBand::Bass)));
}

#[test]
fn raw_channels_constant_buffer() {
    let s: Vec<i64> = vec![5000; 4];
    let (c0, c1, c2) = raw_channels(&s);
    // rms = 5000, times 5 saturates the clamp
    assert_eq!(c0, 10000);
    // max == min
    assert_eq!(c1, 0);
    // mean 0.5 maps to (0.5 + 1) / 2 = 0.75
    assert_eq!(c2, 7500);
}

#[test]
fn raw_channels_square_wave() {
    let s: Vec<i64> = vec![10000, -10000, 10000, -10000];
    let (c0, c1, c2) = raw_channels(&s);
    assert_eq!(c0, 10000);
    assert_eq!(c1, 10000);
    assert_eq!(c2, 5000);
}

#[test]
fn raw_channels_small_signal_exact() {
    let s: Vec<i64> = vec![100, 200, -300, 400];
    let (c0, c1, c2) = raw_channels(&s);
    // energy = 300000, mean square = 75000, isqrt = 273, times 5
    assert_eq!(c0, 1365);
    // (400 - (-300)) / 2
    assert_eq!(c1, 350);
    // sum = 400, mean = 100, (100 + 10000) / 2
    assert_eq!(c2, 5050);
}

#[test]
fn loudness_grows_with_uniform_scaling() {
    // Scaling every sample by the same factor never lowers channel 0.
    let b: Vec<i64> = vec![100, 200, -300, 400];
    let a: Vec<i64> = vec![200, 400, -600, 800];
    let (b0, _, _) = raw_channels(&b);
    let (a0, _, _) = raw_channels(&a);
    assert!(a0 >= b0);
    assert_eq!(b0, 1365);
    assert_eq!(a0, 2735);
}

#[test]
fn spectral_channels_pure_mid_tone() {
    // A period-4 square-ish tone at 1000 Hz: bins 1..3 all lie in Mid, and
    // only bins 1 and 3 carry energy, so Bass and Treble stay at zero.
    let s: Vec<i64> = vec![10000, 0, -10000, 0];
    let (bass, mid, treble) = spectral_channels(&s, 1000);
    assert_eq!(bass, 0);
    assert_eq!(treble, 0);
    // mid average magnitude 13333 amplifies and clamps to 10000, and
    // log-compresses to 7016
    assert_eq!(mid, 7016);
}

#[test]
fn spectral_channels_silence_is_zero() {
    let s: Vec<i64> = vec![0; 8];
    let (bass, mid, treble) = spectral_channels(&s, 44100);
    assert_eq!(bass, 0);
    assert_eq!(mid, 0);
    assert_eq!(treble, 0);
}
