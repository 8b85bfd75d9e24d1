use audio_viz_core::capture::CaptureFifo;
use audio_viz_core::convert::{deinterleave_channel, sample_from_i16};
use audio_viz_core::fixed::{clamp_unit, compress, isqrt};
use audio_viz_core::ring::RingSampleBuffer;
use audio_viz_core::trig::{cosine_frac, sine_frac};

#[test]
fn ring_buffer_eviction_order() {
    // Pushing N + 1 distinct samples into a capacity-N buffer leaves
    // exactly the last N, in their original order: the first is evicted.
    let mut buf = RingSampleBuffer::new(4);
    for s in [1i64, 2, 3, 4, 5] {
        buf.push(s);
    }
    assert_eq!(buf.snapshot(), &vec![2i64, 3, 4, 5]);
}

#[test]
fn ring_buffer_primed_with_zeros() {
    let mut buf = RingSampleBuffer::new(3);
    assert_eq!(buf.capacity(), 3);
    assert_eq!(buf.snapshot(), &vec![0i64, 0, 0]);
    buf.push(7);
    assert_eq!(buf.snapshot(), &vec![0i64, 0, 7]);
}

#[test]
fn capture_fifo_keeps_newest_when_full() {
    let mut fifo = CaptureFifo::new(3);
    for s in [1i64, 2, 3, 4] {
        fifo.push_captured(s);
    }
    assert_eq!(fifo.available(), 3);
    let drained = fifo.drain(2);
    assert_eq!(drained, vec![2i64, 3]);
    assert_eq!(fifo.available(), 1);
    let rest = fifo.drain(10);
    assert_eq!(rest, vec![4i64]);
    assert_eq!(fifo.available(), 0);
    assert_eq!(fifo.drain(10), Vec::<i64>::new());
}

#[test]
fn integer_square_root() {
    assert_eq!(isqrt(0), 0);
    assert_eq!(isqrt(1), 1);
    assert_eq!(isqrt(99), 9);
    assert_eq!(isqrt(100), 10);
    assert_eq!(isqrt(100000000), 10000);
    assert_eq!(isqrt(1099511627776), 1048576);
}

#[test]
fn clamp_bounds() {
    assert_eq!(clamp_unit(-5), 0);
    assert_eq!(clamp_unit(0), 0);
    assert_eq!(clamp_unit(9999), 9999);
    assert_eq!(clamp_unit(10001), 10000);
}

#[test]
fn compression_curve_values() {
    // log1p-style compression: zero in, zero out; monotone; below the clamp
    assert_eq!(compress(0), 0);
    assert_eq!(compress(5000), 5197);
    assert_eq!(compress(10000), 7016);
    assert!(compress(5000) < compress(10000));
    let mut prev = -1i64;
    for a in [0i64, 1, 10, 100, 1000, 2500, 5000, 7500, 10000] {
        let c = compress(a);
        assert!(c >= prev);
        assert!((0..=10000).contains(&c));
        prev = c;
    }
}

#[test]
fn fixed_point_trigonometry_quarter_turns() {
    assert_eq!(sine_frac(0, 100), 0);
    assert_eq!(sine_frac(25, 100), 10000);
    assert_eq!(sine_frac(50, 100), 0);
    assert_eq!(sine_frac(75, 100), -10000);
    assert_eq!(cosine_frac(0, 100), 10000);
    assert_eq!(cosine_frac(25, 100), 0);
    assert_eq!(cosine_frac(50, 100), -10000);
    assert_eq!(cosine_frac(75, 100), 0);
}

#[test]
fn sine_approximation_close_to_true_sine() {
    // Bhaskara's approximation stays within 20 fixed-point units (0.2%)
    // of the true sine across a full turn.
    let n = 360u64;
    for k in 0..n {
        let got = sine_frac(k, n) as f64;
        let want = (2.0 * std::f64::consts::PI * k as f64 / n as f64).sin() * 10000.0;
        assert!((got - want).abs() < 20.0, "k={k}: {got} vs {want}");
    }
}

#[test]
fn pcm_sample_conversion() {
    assert_eq!(sample_from_i16(0), 0);
    assert_eq!(sample_from_i16(-32768), -10000);
    assert_eq!(sample_from_i16(32767), 9999);
    assert_eq!(sample_from_i16(16384), 5000);
    assert_eq!(sample_from_i16(-16384), -5000);
}

#[test]
fn deinterleave_picks_one_channel() {
    let raw: Vec<i16> = vec![1000, -1000, 2000, -2000, 3000];
    let left = deinterleave_channel(&raw, 2, 0);
    let right = deinterleave_channel(&raw, 2, 1);
    // the trailing partial frame (3000) is ignored
    assert_eq!(left, vec![305i64, 610]);
    assert_eq!(right, vec![-305i64, -610]);
    let mono = deinterleave_channel(&raw, 1, 0);
    assert_eq!(mono.len(), 5);
}
