//! Audio-reactive visualization core.
//!
//! The crate samples a mono audio signal into a fixed-capacity ring buffer,
//! analyzes it either by raw amplitude statistics or by a spectral band
//! decomposition, and publishes a small bounded numeric summary (three
//! channels plus a timestamp) for a renderer to consume.
//!
//! All arithmetic is fixed-point: the integer [`fixed::UNIT`] stands for the
//! real value 1.0, so a sample is an `i64` in `[-UNIT, UNIT]` and every
//! published channel is an `i64` in `[0, UNIT]`.

pub mod capture;
pub mod convert;
pub mod pipeline;
pub mod fixed;
pub mod ring;
pub mod spectral;
pub mod stats;
pub mod tap;
pub mod trig;
