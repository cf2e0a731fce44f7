//! Properties of the pipeline as a whole, stated over the models of its parts.
use vstd::prelude::*;

use vstd::arithmetic::div_mod::{
    lemma_add_mod_noop, lemma_fundamental_div_mod, lemma_fundamental_div_mod_converse,
    lemma_small_mod,
};

use crate::config::BUFFER_SIZE;
use crate::fwhm::{
    first_at_least, fwhm_left, fwhm_right, fwhm_width, half_max, last_at_least, seq_max,
};
use crate::state::{MeasurementModel, Metrics};

verus! {

/// The state after each `(sample, time)` pair has been handed to
/// `process_sample_at` in order.
pub open spec fn feed(m: MeasurementModel, samples: Seq<(u16, u64)>) -> MeasurementModel
    decreases samples.len(),
{
    if samples.len() == 0 {
        m
    } else {
        feed(m, samples.drop_last()).after_sample(samples.last().0, samples.last().1)
    }
}

/// The state and the emitted metrics after the sampling loop has handled each
/// `(sample, time)` pair: the sample is processed, then a complete window is
/// measured and the state reset (`complete_window`).
pub open spec fn run(m: MeasurementModel, samples: Seq<(u16, u64)>) -> (
    MeasurementModel,
    Seq<Metrics>,
)
    decreases samples.len(),
{
    if samples.len() == 0 {
        (m, Seq::empty())
    } else {
        let prev = run(m, samples.drop_last());
        let step = prev.0.after_sample(samples.last().0, samples.last().1).after_window_check();
        (
            step.0,
            match step.1 {
                Some(x) => prev.1.push(x),
                None => prev.1,
            },
        )
    }
}

/// Every sample moves the write position one place on, modulo the capacity,
/// whatever its value: after `n` samples it has advanced by `n` places.
pub proof fn lemma_write_position(m: MeasurementModel, samples: Seq<(u16, u64)>)
    requires
        m.wf(),
    ensures
        feed(m, samples).wf(),
        feed(m, samples).index == (m.index + samples.len()) % (BUFFER_SIZE as int),
    decreases samples.len(),
{
    if samples.len() > 0 {
        lemma_write_position(m, samples.drop_last());
        lemma_add_mod_noop(m.index + samples.len() - 1, 1, BUFFER_SIZE as int);
        lemma_small_mod(1, BUFFER_SIZE as nat);
        lemma_small_mod(
            feed(m, samples.drop_last()).index as nat,
            BUFFER_SIZE as nat,
        );
    }
}

/// From a fresh state, the window is complete after a sample exactly when
/// the number of samples written so far is a multiple of the capacity: once
/// every `BUFFER_SIZE` samples, right after the `k * BUFFER_SIZE`-th write.
pub proof fn lemma_window_completion(samples: Seq<(u16, u64)>)
    ensures
        feed(MeasurementModel::initial(), samples).buffer_full() <==> samples.len() as int % (
        BUFFER_SIZE as int) == 0,
{
    lemma_write_position(MeasurementModel::initial(), samples);
}

/// Resets between windows leave the write position alone, so the sampling
/// loop sees the same positions as plain processing does.
pub proof fn lemma_run_position(m: MeasurementModel, samples: Seq<(u16, u64)>)
    requires
        m.wf(),
    ensures
        run(m, samples).0.wf(),
        run(m, samples).0.index == feed(m, samples).index,
    decreases samples.len(),
{
    if samples.len() > 0 {
        lemma_run_position(m, samples.drop_last());
        lemma_write_position(m, samples);
    }
}

/// From a fresh state, the sampling loop emits one set of metrics for a
/// sample exactly when the number of samples so far is a multiple of the
/// capacity.
pub proof fn lemma_window_emission(samples: Seq<(u16, u64)>)
    requires
        samples.len() > 0,
    ensures
        run(MeasurementModel::initial(), samples).1.len() == run(
            MeasurementModel::initial(),
            samples.drop_last(),
        ).1.len() + if samples.len() as int % (BUFFER_SIZE as int) == 0 {
            1int
        } else {
            0int
        },
{
    lemma_run_position(MeasurementModel::initial(), samples.drop_last());
    lemma_write_position(MeasurementModel::initial(), samples);
    lemma_write_position(MeasurementModel::initial(), samples.drop_last());
}

proof fn lemma_div_step(n: int, d: int)
    requires
        n > 0,
        d > 0,
    ensures
        n / d == (n - 1) / d + if n % d == 0 {
            1int
        } else {
            0int
        },
{
    let q = (n - 1) / d;
    let r = (n - 1) % d;
    lemma_fundamental_div_mod(n - 1, d);
    assert(n - 1 == q * d + r) by (nonlinear_arith)
        requires
            n - 1 == d * q + r,
    ;
    if r == d - 1 {
        assert(n == (q + 1) * d + 0) by (nonlinear_arith)
            requires
                n - 1 == q * d + r,
                r == d - 1,
        ;
        lemma_fundamental_div_mod_converse(n, d, q + 1, 0);
    } else {
        lemma_fundamental_div_mod_converse(n, d, q, r + 1);
    }
}

/// From a fresh state, `n` samples through the sampling loop give exactly
/// `n / BUFFER_SIZE` sets of metrics: one per completed window.
pub proof fn lemma_window_count(samples: Seq<(u16, u64)>)
    ensures
        run(MeasurementModel::initial(), samples).1.len() == samples.len() / BUFFER_SIZE as nat,
    decreases samples.len(),
{
    if samples.len() > 0 {
        lemma_window_count(samples.drop_last());
        lemma_window_emission(samples);
        lemma_div_step(samples.len() as int, BUFFER_SIZE as int);
    }
}

/// Two states that hold the same samples, position, extrema and elapsed time.
pub open spec fn same_signal(a: MeasurementModel, b: MeasurementModel) -> bool {
    &&& a.buffer == b.buffer
    &&& a.index == b.index
    &&& a.min == b.min
    &&& a.max == b.max
    &&& a.elapsed_us == b.elapsed_us
}

proof fn lemma_run_same_samples(
    m1: MeasurementModel,
    m2: MeasurementModel,
    a: Seq<(u16, u64)>,
    b: Seq<(u16, u64)>,
)
    requires
        same_signal(m1, m2),
        a.len() == b.len(),
        forall|i: int| 0 <= i < a.len() ==> a[i].0 == b[i].0,
    ensures
        same_signal(run(m1, a).0, run(m2, b).0),
        run(m1, a).1.len() == run(m2, b).1.len(),
        forall|i: int|
            0 <= i < run(m1, a).1.len() ==> run(m1, a).1[i].fwhm_us == run(m2, b).1[i].fwhm_us
                && run(m1, a).1[i].peak_code == run(m2, b).1[i].peak_code,
    decreases a.len(),
{
    if a.len() > 0 {
        let a0 = a.drop_last();
        let b0 = b.drop_last();
        assert forall|i: int| 0 <= i < a0.len() implies a0[i].0 == b0[i].0 by {
            assert(a[i].0 == b[i].0);
        }
        lemma_run_same_samples(m1, m2, a0, b0);
        assert(a.last().0 == b.last().0);
    }
}

/// Replaying the same samples through a fresh state gives the same windows
/// with the same widths and amplitudes, whatever the sample times; with the
/// same times as well, the outputs are identical.
pub proof fn lemma_replay_deterministic(a: Seq<(u16, u64)>, b: Seq<(u16, u64)>)
    requires
        a.len() == b.len(),
        forall|i: int| 0 <= i < a.len() ==> a[i].0 == b[i].0,
    ensures
        run(MeasurementModel::initial(), a).1.len() == run(MeasurementModel::initial(), b).1.len(),
        forall|i: int|
            0 <= i < run(MeasurementModel::initial(), a).1.len() ==> run(
                MeasurementModel::initial(),
                a,
            ).1[i].fwhm_us == run(MeasurementModel::initial(), b).1[i].fwhm_us && run(
                MeasurementModel::initial(),
                a,
            ).1[i].peak_code == run(MeasurementModel::initial(), b).1[i].peak_code,
        a == b ==> run(MeasurementModel::initial(), a) == run(MeasurementModel::initial(), b),
{
    lemma_run_same_samples(MeasurementModel::initial(), MeasurementModel::initial(), a, b);
}

/// No sample of `samples` is a peak in the state the loop is in when it
/// arrives.
pub open spec fn quiet(m: MeasurementModel, samples: Seq<(u16, u64)>) -> bool {
    forall|i: int|
        0 <= i < samples.len() ==> !run(m, samples.take(i)).0.sample_is_peak(
            #[trigger] samples[i].0,
        )
}

proof fn lemma_quiet_keeps_timing(m: MeasurementModel, samples: Seq<(u16, u64)>)
    requires
        quiet(m, samples),
    ensures
        run(m, samples).0.last_peak == m.last_peak,
        run(m, samples).0.peak_interval == m.peak_interval,
    decreases samples.len(),
{
    if samples.len() > 0 {
        let p = samples.drop_last();
        assert forall|i: int| 0 <= i < p.len() implies !run(m, p.take(i)).0.sample_is_peak(
            #[trigger] p[i].0,
        ) by {
            assert(p.take(i) =~= samples.take(i));
            assert(p[i] == samples[i]);
            assert(!run(m, samples.take(i)).0.sample_is_peak(samples[i].0));
        }
        lemma_quiet_keeps_timing(m, p);
        let k = samples.len() - 1;
        assert(samples.take(k) =~= p);
        assert(!run(m, samples.take(k)).0.sample_is_peak(samples[k].0));
    }
}

/// In the sampling loop, a peak at `t1` and the next peak at a later `t2`,
/// with any number of samples that are no peaks between them (window
/// completions included), set the interval estimate to `t2 - t1`; the
/// frequency is its reciprocal.
pub proof fn lemma_interval_of_two_peaks(
    m: MeasurementModel,
    v1: u16,
    t1: u64,
    between: Seq<(u16, u64)>,
    v2: u16,
    t2: u64,
)
    requires
        m.sample_is_peak(v1),
        quiet(m.after_sample(v1, t1).after_window_check().0, between),
        run(m.after_sample(v1, t1).after_window_check().0, between).0.sample_is_peak(v2),
        t1 < t2,
    ensures
        run(m.after_sample(v1, t1).after_window_check().0, between).0.after_sample(
            v2,
            t2,
        ).peak_interval == Some((t2 - t1) as u64),
{
    lemma_quiet_keeps_timing(m.after_sample(v1, t1).after_window_check().0, between);
}

/// From a fresh state, a run with at most one peak (at `v`; every sample
/// before and after it is no peak) leaves no interval estimate, so the
/// frequency stays at zero.
pub proof fn lemma_single_peak_leaves_no_interval(
    before: Seq<(u16, u64)>,
    v: u16,
    t: u64,
    after: Seq<(u16, u64)>,
)
    requires
        quiet(MeasurementModel::initial(), before),
        quiet(
            run(MeasurementModel::initial(), before).0.after_sample(v, t).after_window_check().0,
            after,
        ),
    ensures
        run(
            run(MeasurementModel::initial(), before).0.after_sample(v, t).after_window_check().0,
            after,
        ).0.peak_interval is None,
{
    lemma_quiet_keeps_timing(MeasurementModel::initial(), before);
    lemma_quiet_keeps_timing(
        run(MeasurementModel::initial(), before).0.after_sample(v, t).after_window_check().0,
        after,
    );
}

/// How many of the first `j` samples of `s` are at least `h`.
pub open spec fn count_at_least(s: Seq<u16>, h: u16, j: int) -> int
    decreases j,
{
    if j <= 0 {
        0
    } else {
        count_at_least(s, h, j - 1) + if s[j - 1] >= h {
            1int
        } else {
            0int
        }
    }
}

proof fn lemma_seq_max_bounds(s: Seq<u16>)
    requires
        s.len() > 0,
    ensures
        exists|k: int| 0 <= k < s.len() && s[k] == seq_max(s),
        forall|k: int| 0 <= k < s.len() ==> s[k] <= seq_max(s),
    decreases s.len(),
{
    if s.len() == 1 {
        assert(seq_max(s.drop_last()) == 0);
        assert(s[0] == seq_max(s));
    } else {
        let p = s.drop_last();
        lemma_seq_max_bounds(p);
        let k0 = choose|k: int| 0 <= k < p.len() && p[k] == seq_max(p);
        if s.last() > seq_max(p) {
            assert(s[s.len() - 1] == seq_max(s));
        } else {
            assert(s[k0] == seq_max(s));
        }
        assert forall|k: int| 0 <= k < s.len() implies s[k] <= seq_max(s) by {
            if k < s.len() - 1 {
                assert(s[k] == p[k]);
            }
        }
    }
}

proof fn lemma_first_at_least(s: Seq<u16>, h: u16, i: int)
    requires
        0 <= i <= s.len(),
    ensures
        i <= first_at_least(s, h, i) <= s.len(),
        forall|k: int| i <= k < first_at_least(s, h, i) ==> s[k] < h,
        first_at_least(s, h, i) < s.len() ==> s[first_at_least(s, h, i)] >= h,
    decreases s.len() - i,
{
    if i < s.len() && s[i] < h {
        lemma_first_at_least(s, h, i + 1);
    }
}

proof fn lemma_last_at_least(s: Seq<u16>, h: u16, j: int)
    requires
        -1 <= j < s.len(),
    ensures
        -1 <= last_at_least(s, h, j) <= j,
        forall|k: int| last_at_least(s, h, j) < k <= j ==> s[k] < h,
        last_at_least(s, h, j) >= 0 ==> s[last_at_least(s, h, j)] >= h,
    decreases j + 1,
{
    if j >= 0 && s[j] < h {
        lemma_last_at_least(s, h, j - 1);
    }
}

proof fn lemma_count_run(s: Seq<u16>, h: u16, a: int, b: int, j: int)
    requires
        0 <= a <= b < s.len(),
        0 <= j <= s.len(),
        forall|k: int| 0 <= k < a ==> s[k] < h,
        forall|k: int| a <= k <= b ==> s[k] >= h,
        forall|k: int| b < k < s.len() ==> s[k] < h,
    ensures
        count_at_least(s, h, j) == if j <= a {
            0
        } else if j <= b + 1 {
            j - a
        } else {
            b - a + 1
        },
    decreases j,
{
    if j > 0 {
        lemma_count_run(s, h, a, b, j - 1);
    }
}

/// For a buffer that holds a single pulse, meaning that its samples at or
/// above half the maximum form one unbroken run (a symmetric triangular
/// pulse is one), the width in sample periods is the length of that run less
/// one: within one sample of the count of samples at or above half maximum.
pub proof fn lemma_single_pulse_width(s: Seq<u16>)
    requires
        s.len() > 0,
        forall|i: int, j: int, k: int|
            #![trigger s[i], s[j], s[k]]
            0 <= i <= j <= k < s.len() && s[i] >= half_max(s) && s[k] >= half_max(s) ==> s[j]
                >= half_max(s),
    ensures
        fwhm_width(s) == count_at_least(s, half_max(s), s.len() as int) - 1,
{
    let h = half_max(s);
    lemma_seq_max_bounds(s);
    let top = choose|k: int| 0 <= k < s.len() && s[k] == seq_max(s);
    assert(s[top] >= h);
    lemma_first_at_least(s, h, 0);
    lemma_last_at_least(s, h, s.len() - 1);
    let a = fwhm_left(s);
    let b = fwhm_right(s);
    assert(a <= top);
    assert(top <= b);
    assert forall|k: int| a <= k <= b implies s[k] >= h by {
        assert(s[a] >= h && s[b] >= h);
    }
    lemma_count_run(s, h, a, b, s.len() as int);
}

} // verus!
