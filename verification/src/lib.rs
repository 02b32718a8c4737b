//! Verified core of an audio level monitor.
//!
//! Samples are signed 32-bit integers, amplitudes are their magnitudes, and
//! levels are integers in thousandths of a decibel. The analysis of one
//! buffer, the two-stage smoothing, the sticky threshold flags and the three
//! monitoring modes are all computed on these integers, so that every result
//! is exact and every contract is stated over mathematical integers. What
//! needs floating-point arithmetic, the logarithm that turns an amplitude
//! into a level, is handed in by the caller.
pub mod audio;
pub mod config;
pub mod constants;
pub mod error;
pub mod monitor;
pub mod smoothing;
pub mod state;
pub mod text;
pub mod ui;
