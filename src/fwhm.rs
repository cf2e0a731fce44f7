//! Full width at half maximum of a window of samples.
use vstd::prelude::*;

use crate::config::{MICROS_PER_SECOND, SAMPLING_RATE};

verus! {

/// The largest sample of `s` (zero for an empty sequence).
pub open spec fn seq_max(s: Seq<u16>) -> u16
    decreases s.len(),
{
    if s.len() == 0 {
        0
    } else {
        let m = seq_max(s.drop_last());
        if s.last() > m {
            s.last()
        } else {
            m
        }
    }
}

/// Half of the largest sample, rounded down.
pub open spec fn half_max(s: Seq<u16>) -> u16 {
    (seq_max(s) / 2) as u16
}

/// The first index at or after `i` whose sample is at least `h`, or `s.len()`
/// when there is none.
pub open spec fn first_at_least(s: Seq<u16>, h: u16, i: int) -> int
    decreases s.len() - i,
{
    if i >= s.len() {
        s.len() as int
    } else if s[i] >= h {
        i
    } else {
        first_at_least(s, h, i + 1)
    }
}

/// The last index at or before `j` whose sample is at least `h`, or `-1` when
/// there is none.
pub open spec fn last_at_least(s: Seq<u16>, h: u16, j: int) -> int
    decreases j + 1,
{
    if j < 0 {
        -1
    } else if s[j] >= h {
        j
    } else {
        last_at_least(s, h, j - 1)
    }
}

/// Left edge of the half-maximum span: the first sample at or above half of
/// the maximum.
pub open spec fn fwhm_left(s: Seq<u16>) -> int {
    first_at_least(s, half_max(s), 0)
}

/// Right edge of the half-maximum span: the last sample at or above half of
/// the maximum.
pub open spec fn fwhm_right(s: Seq<u16>) -> int {
    last_at_least(s, half_max(s), s.len() - 1)
}

/// Width of the half-maximum span in sample periods.
pub open spec fn fwhm_width(s: Seq<u16>) -> int {
    fwhm_right(s) - fwhm_left(s)
}

/// Width of the half-maximum span in microseconds, rounded down.
pub open spec fn fwhm_micros(s: Seq<u16>) -> int {
    fwhm_width(s) * MICROS_PER_SECOND / SAMPLING_RATE as int
}

proof fn lemma_seq_max_step(s: Seq<u16>, i: int)
    requires
        0 <= i < s.len(),
    ensures
        seq_max(s.subrange(0, i + 1)) == if s[i] > seq_max(s.subrange(0, i)) {
            s[i]
        } else {
            seq_max(s.subrange(0, i))
        },
{
    assert(s.subrange(0, i + 1).drop_last() =~= s.subrange(0, i));
}

/// Finds the largest sample and one index holding it.
fn max_sample(data: &[u16]) -> (r: (u16, usize))
    requires
        data@.len() > 0,
    ensures
        r.0 == seq_max(data@),
        r.1 < data@.len(),
        data@[r.1 as int] == r.0,
        forall|k: int| 0 <= k < data@.len() ==> data@[k] <= r.0,
{
    let mut best: u16 = data[0];
    let mut at: usize = 0;
    let mut i: usize = 1;
    proof {
        lemma_seq_max_step(data@, 0);
        assert(data@.subrange(0, 0).len() == 0);
    }
    while i < data.len()
        invariant
            1 <= i <= data@.len(),
            at < i,
            data@[at as int] == best,
            best == seq_max(data@.subrange(0, i as int)),
            forall|k: int| 0 <= k < i ==> data@[k] <= best,
        decreases data@.len() - i,
    {
        proof {
            lemma_seq_max_step(data@, i as int);
        }
        if data[i] > best {
            best = data[i];
            at = i;
        }
        i += 1;
    }
    assert(data@.subrange(0, data@.len() as int) =~= data@);
    (best, at)
}

/// Full width at half maximum of `data`, in microseconds.
///
/// The left edge is the first sample at or above half of the largest sample,
/// the right edge the last one; the width between them is converted from
/// sample periods to microseconds at the fixed sampling rate. Every
/// non-empty buffer is accepted: a flat or all-zero buffer gives a width
/// rather than a failure.
pub fn calculate_fwhm(data: &[u16]) -> (r: u128)
    requires
        data@.len() > 0,
    ensures
        r == fwhm_micros(data@),
        0 <= fwhm_left(data@) <= fwhm_right(data@) < data@.len(),
{
    let ghost s = data@;
    let (max, at) = max_sample(data);
    let half: u16 = max / 2;
    assert(half == half_max(s));
    let mut left: usize = 0;
    let mut right: usize = data.len() - 1;
    while data[left] < half && left < right
        invariant
            s == data@,
            half <= max,
            left <= at <= right,
            right == s.len() - 1,
            s[at as int] == max,
            first_at_least(s, half, left as int) == first_at_least(s, half, 0),
        decreases right - left,
    {
        left += 1;
    }
    while data[right] < half && right > left
        invariant
            s == data@,
            half <= max,
            left <= at <= right,
            right <= s.len() - 1,
            s[at as int] == max,
            s[left as int] >= half,
            first_at_least(s, half, left as int) == first_at_least(s, half, 0),
            last_at_least(s, half, right as int) == last_at_least(s, half, s.len() - 1),
        decreases right - left,
    {
        right -= 1;
    }
    let width: u128 = (right - left) as u128;
    assert(width * 1_000_000 <= u128::MAX) by (nonlinear_arith)
        requires
            width <= usize::MAX,
    ;
    width * (MICROS_PER_SECOND as u128) / (SAMPLING_RATE as u128)
}

} // verus!
