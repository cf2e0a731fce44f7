//! Fixed acquisition constants.
use vstd::prelude::*;

verus! {

/// Converter samples taken per second.
pub const SAMPLING_RATE: u32 = 500_000;

/// Number of samples held by one acquisition window.
pub const BUFFER_SIZE: usize = 2048;

/// Microseconds in one second.
pub const MICROS_PER_SECOND: u64 = 1_000_000;

/// Length of one complete window in microseconds (`BUFFER_SIZE` samples at
/// `SAMPLING_RATE`).
pub const WINDOW_MICROS: u64 = 4096;

} // verus!
