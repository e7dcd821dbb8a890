//! Turns a slice of decoded audio into a time-stamped sequence of
//! banded spectral-energy frames.
//!
//! The crate carries samples and energies as opaque IEEE 754 bit
//! patterns and proves everything about them that does not depend on
//! float arithmetic: which samples land in which window, which bins
//! land in which band, when a requested range is rejected or clamped,
//! how frames are timed and ordered, and how the decode loop treats a
//! damaged stream. The float kernels themselves — downmix averaging,
//! Hann windowing, the transform, dB conversion — stay with the caller,
//! which feeds their results back in.

pub mod audio;
pub mod config;
pub mod fft;
pub mod structs;
