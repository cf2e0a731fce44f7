//! Real-time processing core of a peak monitor: a ring buffer of converter
//! samples with running extrema, an adaptive-threshold peak detector, an
//! inter-peak interval estimator and the full-width-at-half-maximum of a
//! completed window.
//!
//! Design choices:
//! - Everything is kept in integers. Times are microseconds. The frequency
//!   is carried as the interval between peaks, and the amplitude as the raw
//!   converter code of the largest sample since the last reset (the
//!   absolute peak, not peak-to-peak). The caller converts both to Hz and
//!   volts.
//! - A window completes only when the write position wraps to zero.
//! - A reset empties the extrema but not the buffer: samples of the previous
//!   window stay until they are overwritten.
//! - Every sample above the threshold counts as a peak; there is no
//!   debouncing.
pub mod config;
pub mod fwhm;
pub mod laws;
pub mod peak;
pub mod state;
