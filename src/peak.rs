//! Adaptive-threshold peak decision.
use vstd::prelude::*;

verus! {

/// The detection threshold: the observed minimum plus three quarters
/// (rounded down) of the observed range.
pub open spec fn peak_threshold(min: u16, max: u16) -> int {
    min + (max - min) * 3 / 4
}

/// A sample is a peak when it lies strictly above the threshold.
pub open spec fn is_peak_spec(value: u16, min: u16, max: u16) -> bool {
    value > peak_threshold(min, max)
}

/// Decides whether `value` is a peak given the minimum and maximum observed
/// so far in the current window.
pub fn is_peak(value: u16, min: u16, max: u16) -> (r: bool)
    requires
        min <= max,
    ensures
        r == is_peak_spec(value, min, max),
        r <==> value as int > min as int + (max as int - min as int) * 3 / 4,
        min == max && value <= min ==> !r,
{
    let range: u32 = (max - min) as u32;
    let threshold: u32 = min as u32 + range * 3 / 4;
    value as u32 > threshold
}

} // verus!
