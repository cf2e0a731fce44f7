//! The measurement state owned by the sampling loop: a ring buffer of the most
//! recent samples, the running extrema since the last reset, the peak timing
//! and the elapsed-time accumulator.
use vstd::prelude::*;

use crate::config::{BUFFER_SIZE, WINDOW_MICROS};
use crate::fwhm::{calculate_fwhm, fwhm_micros};
use crate::peak::{is_peak, is_peak_spec};

verus! {

/// What one completed window yields. Physical units are applied by the
/// caller: the amplitude in volts is `peak_code` scaled by the converter's
/// reference voltage over its full-scale code, and the frequency is the
/// reciprocal of `peak_interval_us` (zero while no interval is known).
#[derive(Clone, Copy, Debug, PartialEq, Eq, Structural)]
pub struct Metrics {
    /// Full width at half maximum of the window, in microseconds.
    pub fwhm_us: u128,
    /// Largest sample observed since the last reset, in converter codes.
    pub peak_code: u16,
    /// Time between the two most recent peaks that were strictly apart.
    pub peak_interval_us: Option<u64>,
}

/// Mathematical model of a `MeasurementState`.
pub struct MeasurementModel {
    /// The ring buffer, `BUFFER_SIZE` samples.
    pub buffer: Seq<u16>,
    /// The next position to overwrite.
    pub index: int,
    /// Smallest sample since the last reset.
    pub min: u16,
    /// Largest sample since the last reset.
    pub max: u16,
    /// Time of the latest peak, in microseconds.
    pub last_peak: Option<u64>,
    /// Time between the two most recent peaks that were strictly apart.
    pub peak_interval: Option<u64>,
    /// Elapsed time counted in whole windows, in microseconds.
    pub elapsed_us: u64,
}

/// The smaller of two samples.
pub open spec fn min_u16(a: u16, b: u16) -> u16 {
    if a <= b {
        a
    } else {
        b
    }
}

/// The larger of two samples.
pub open spec fn max_u16(a: u16, b: u16) -> u16 {
    if a >= b {
        a
    } else {
        b
    }
}

impl MeasurementModel {
    /// The state at start-up: a zeroed buffer, the write position at the
    /// start, empty extrema, no peak seen and no time elapsed.
    pub open spec fn initial() -> MeasurementModel {
        MeasurementModel {
            buffer: Seq::new(BUFFER_SIZE as nat, |i: int| 0u16),
            index: 0,
            min: u16::MAX,
            max: u16::MIN,
            last_peak: None,
            peak_interval: None,
            elapsed_us: 0,
        }
    }

    /// A buffer of the full capacity and a write position inside it.
    pub open spec fn wf(self) -> bool {
        &&& self.buffer.len() == BUFFER_SIZE
        &&& 0 <= self.index < BUFFER_SIZE
    }

    /// Whether `value` is judged a peak once it has been folded into the
    /// running extrema.
    pub open spec fn sample_is_peak(self, value: u16) -> bool {
        is_peak_spec(value, min_u16(self.min, value), max_u16(self.max, value))
    }

    /// The interval estimate after a peak at `now`: replaced by the time since
    /// the previous peak when that is strictly positive, kept otherwise.
    pub open spec fn interval_after_peak(self, now: u64) -> Option<u64> {
        match self.last_peak {
            Some(last) => if now > last {
                Some((now - last) as u64)
            } else {
                self.peak_interval
            },
            None => self.peak_interval,
        }
    }

    /// The state after the sample `value`, taken at time `now` (microseconds).
    pub open spec fn after_sample(self, value: u16, now: u64) -> MeasurementModel {
        let peak = self.sample_is_peak(value);
        MeasurementModel {
            buffer: self.buffer.update(self.index, value),
            index: (self.index + 1) % (BUFFER_SIZE as int),
            min: min_u16(self.min, value),
            max: max_u16(self.max, value),
            last_peak: if peak {
                Some(now)
            } else {
                self.last_peak
            },
            peak_interval: if peak {
                self.interval_after_peak(now)
            } else {
                self.peak_interval
            },
            elapsed_us: self.elapsed_us,
        }
    }

    /// A window is complete exactly when the write position is back at the
    /// start of the buffer.
    pub open spec fn buffer_full(self) -> bool {
        self.index == 0
    }

    /// The metrics of the current window.
    pub open spec fn metrics(self) -> Metrics {
        Metrics {
            fwhm_us: fwhm_micros(self.buffer) as u128,
            peak_code: self.max,
            peak_interval_us: self.peak_interval,
        }
    }

    /// The state after a reset: empty extrema and one more window of elapsed
    /// time (saturating); samples, position and peak timing are kept.
    pub open spec fn after_reset(self) -> MeasurementModel {
        MeasurementModel {
            min: u16::MAX,
            max: u16::MIN,
            elapsed_us: if self.elapsed_us as int + WINDOW_MICROS <= u64::MAX {
                (self.elapsed_us + WINDOW_MICROS) as u64
            } else {
                u64::MAX
            },
            ..self
        }
    }

    /// The state and output after checking for a completed window: when the
    /// window is complete its metrics are emitted and the state is reset.
    pub open spec fn after_window_check(self) -> (MeasurementModel, Option<Metrics>) {
        if self.buffer_full() {
            (self.after_reset(), Some(self.metrics()))
        } else {
            (self, None)
        }
    }
}

/// Reads the system clock: relies on `embassy_time::Instant::now` for the
/// time since start-up, converted by `Instant::as_micros` to microseconds.
/// It depends on when it is called, so nothing is stated of the value.
#[verifier::external_body]
fn now_micros() -> (r: u64) {
    embassy_time::Instant::now().as_micros()
}

/// The state of the sample-processing pipeline.
pub struct MeasurementState {
    buffer: Vec<u16>,
    index: usize,
    min: u16,
    max: u16,
    last_peak: Option<u64>,
    peak_interval: Option<u64>,
    elapsed_us: u64,
}

impl View for MeasurementState {
    type V = MeasurementModel;

    closed spec fn view(&self) -> MeasurementModel {
        MeasurementModel {
            buffer: self.buffer@,
            index: self.index as int,
            min: self.min,
            max: self.max,
            last_peak: self.last_peak,
            peak_interval: self.peak_interval,
            elapsed_us: self.elapsed_us,
        }
    }
}

impl MeasurementState {
    /// Well-formedness, established by `new` and kept by every method.
    pub open spec fn wf(&self) -> bool {
        self@.wf()
    }

    /// A fresh state: zeroed buffer, empty extrema, no peak seen.
    pub fn new() -> (s: MeasurementState)
        ensures
            s.wf(),
            s@ == MeasurementModel::initial(),
    {
        let mut buffer: Vec<u16> = Vec::new();
        let mut i: usize = 0;
        while i < BUFFER_SIZE
            invariant
                i <= BUFFER_SIZE,
                buffer@.len() == i,
                forall|k: int| 0 <= k < i ==> buffer@[k] == 0u16,
            decreases BUFFER_SIZE - i,
        {
            buffer.push(0u16);
            i += 1;
        }
        let s = MeasurementState {
            buffer,
            index: 0,
            min: u16::MAX,
            max: u16::MIN,
            last_peak: None,
            peak_interval: None,
            elapsed_us: 0,
        };
        assert(s@.buffer =~= MeasurementModel::initial().buffer);
        s
    }

    /// Stores `value` at the write position, advances the position modulo the
    /// capacity, folds the value into the running extrema and, when the value
    /// is a peak, records `now_us` as the latest peak time and updates the
    /// interval estimate.
    pub fn process_sample_at(&mut self, value: u16, now_us: u64)
        requires
            old(self).wf(),
        ensures
            final(self).wf(),
            final(self)@ == old(self)@.after_sample(value, now_us),
    {
        self.buffer.set(self.index, value);
        self.index = (self.index + 1) % BUFFER_SIZE;
        if value < self.min {
            self.min = value;
        }
        if value > self.max {
            self.max = value;
        }
        if is_peak(value, self.min, self.max) {
            match self.last_peak {
                Some(last) => {
                    if now_us > last {
                        self.peak_interval = Some(now_us - last);
                    }
                },
                None => {},
            }
            self.last_peak = Some(now_us);
        }
    }

    /// Processes `value` as `process_sample_at` does, at the current time of
    /// the system clock. Nothing is assumed of the time read, so the result
    /// is stated for some time.
    pub fn process_sample(&mut self, value: u16)
        requires
            old(self).wf(),
        ensures
            final(self).wf(),
            exists|t: u64| final(self)@ == old(self)@.after_sample(value, t),
    {
        let ghost before = self@;
        let now = now_micros();
        self.process_sample_at(value, now);
        assert(self@ == before.after_sample(value, now));
    }

    /// True exactly when the write position has wrapped back to the start.
    pub fn buffer_full(&self) -> (r: bool)
        ensures
            r == self@.buffer_full(),
    {
        self.index == 0
    }

    /// The metrics of the current window: its FWHM, the largest sample since
    /// the last reset and the current interval estimate.
    pub fn calculate_metrics(&self) -> (r: Metrics)
        requires
            self.wf(),
        ensures
            r == self@.metrics(),
    {
        let fwhm_us = calculate_fwhm(self.buffer.as_slice());
        Metrics { fwhm_us, peak_code: self.max, peak_interval_us: self.peak_interval }
    }

    /// Empties the extrema and advances the elapsed time by one window; the
    /// buffer is left as it is.
    pub fn reset(&mut self)
        ensures
            final(self)@ == old(self)@.after_reset(),
    {
        self.min = u16::MAX;
        self.max = u16::MIN;
        self.elapsed_us = self.elapsed_us.saturating_add(WINDOW_MICROS);
    }

    /// Ends the window when it is complete: returns its metrics and resets the
    /// state, or returns `None` and leaves the state unchanged.
    pub fn complete_window(&mut self) -> (r: Option<Metrics>)
        requires
            old(self).wf(),
        ensures
            final(self).wf(),
            (final(self)@, r) == old(self)@.after_window_check(),
    {
        if self.buffer_full() {
            let m = self.calculate_metrics();
            self.reset();
            Some(m)
        } else {
            None
        }
    }

    /// Current write position.
    pub fn index(&self) -> (r: usize)
        ensures
            r == self@.index,
    {
        self.index
    }

    /// Smallest sample since the last reset (`u16::MAX` when none).
    pub fn min(&self) -> (r: u16)
        ensures
            r == self@.min,
    {
        self.min
    }

    /// Largest sample since the last reset (`0` when none).
    pub fn max(&self) -> (r: u16)
        ensures
            r == self@.max,
    {
        self.max
    }

    /// Time of the latest peak, in microseconds.
    pub fn last_peak(&self) -> (r: Option<u64>)
        ensures
            r == self@.last_peak,
    {
        self.last_peak
    }

    /// Current estimate of the time between peaks, in microseconds.
    pub fn peak_interval(&self) -> (r: Option<u64>)
        ensures
            r == self@.peak_interval,
    {
        self.peak_interval
    }

    /// Whole windows of elapsed time since start-up, in microseconds.
    pub fn elapsed_us(&self) -> (r: u64)
        ensures
            r == self@.elapsed_us,
    {
        self.elapsed_us
    }

    /// The sample stored at position `i` of the buffer.
    pub fn sample_at(&self, i: usize) -> (r: u16)
        requires
            self.wf(),
            i < BUFFER_SIZE,
        ensures
            r == self@.buffer[i as int],
    {
        self.buffer[i]
    }
}

} // verus!
