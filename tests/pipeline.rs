use peak_monitor::config::{BUFFER_SIZE, WINDOW_MICROS};
use peak_monitor::state::{MeasurementState, Metrics};

fn replay(samples: &[(u16, u64)]) -> Vec<Metrics> {
    let mut state = MeasurementState::new();
    let mut out = Vec::new();
    for &(v, t) in samples {
        state.process_sample_at(v, t);
        if let Some(m) = state.complete_window() {
            out.push(m);
        }
    }
    out
}

#[test]
fn fresh_state() {
    let s = MeasurementState::new();
    assert_eq!(s.index(), 0);
    assert_eq!(s.min(), u16::MAX);
    assert_eq!(s.max(), 0);
    assert_eq!(s.last_peak(), None);
    assert_eq!(s.peak_interval(), None);
    assert_eq!(s.elapsed_us(), 0);
    for i in 0..BUFFER_SIZE {
        assert_eq!(s.sample_at(i), 0);
    }
}

#[test]
fn samples_are_stored_and_extrema_tracked() {
    let mut s = MeasurementState::new();
    s.process_sample_at(300, 0);
    s.process_sample_at(100, 2);
    s.process_sample_at(200, 4);
    assert_eq!(s.index(), 3);
    assert_eq!(s.sample_at(0), 300);
    assert_eq!(s.sample_at(1), 100);
    assert_eq!(s.sample_at(2), 200);
    assert_eq!(s.min(), 100);
    assert_eq!(s.max(), 300);
}

#[test]
fn window_completes_once_every_capacity() {
    let mut s = MeasurementState::new();
    for n in 1..=(2 * BUFFER_SIZE + 5) {
        s.process_sample_at((n % 4096) as u16, n as u64);
        assert_eq!(s.buffer_full(), n % BUFFER_SIZE == 0, "after {} samples", n);
        assert_eq!(s.index(), n % BUFFER_SIZE);
    }
}

#[test]
fn one_record_per_window() {
    let samples: Vec<(u16, u64)> =
        (0..(3 * BUFFER_SIZE + 100)).map(|i| ((i * 7 % 4096) as u16, 2 * i as u64)).collect();
    assert_eq!(replay(&samples).len(), 3);
}

#[test]
fn constant_full_scale_window() {
    let mut s = MeasurementState::new();
    let mut records = Vec::new();
    for i in 0..BUFFER_SIZE {
        s.process_sample_at(4095, 2 * i as u64);
        if i + 1 < BUFFER_SIZE {
            assert_eq!(s.min(), 4095);
            assert_eq!(s.max(), 4095);
        } else {
            assert!(s.buffer_full());
            let m = s.calculate_metrics();
            assert_eq!(m.peak_code, 4095);
            assert_eq!(m.fwhm_us, 4094);
        }
        if let Some(m) = s.complete_window() {
            records.push(m);
        }
    }
    assert_eq!(records.len(), 1);
    let m = records[0];
    assert_eq!(m.peak_code, 4095);
    assert_eq!(m.fwhm_us, 4094);
    let volts = m.peak_code as f32 * 3.3 / 4095.0;
    assert!((volts - 3.3).abs() < 1e-6);
    // a flat signal never rises above its own threshold
    assert_eq!(m.peak_interval_us, None);
}

#[test]
fn two_peaks_give_their_interval() {
    let mut s = MeasurementState::new();
    s.process_sample_at(0, 0);
    s.process_sample_at(4000, 1000);
    assert_eq!(s.last_peak(), Some(1000));
    // one peak only: no interval, so a frequency of zero
    assert_eq!(s.peak_interval(), None);
    s.process_sample_at(0, 1100);
    assert_eq!(s.last_peak(), Some(1000));
    s.process_sample_at(4000, 1250);
    assert_eq!(s.last_peak(), Some(1250));
    assert_eq!(s.peak_interval(), Some(250));
    let frequency = 1.0f32 / s.peak_interval().unwrap() as f32;
    assert!((frequency - 0.004).abs() < 1e-9);
}

#[test]
fn consecutive_samples_above_threshold_each_count() {
    let mut s = MeasurementState::new();
    s.process_sample_at(0, 0);
    s.process_sample_at(4000, 10);
    s.process_sample_at(3900, 12);
    assert_eq!(s.last_peak(), Some(12));
    assert_eq!(s.peak_interval(), Some(2));
}

#[test]
fn zero_interval_keeps_estimate() {
    let mut s = MeasurementState::new();
    s.process_sample_at(0, 0);
    s.process_sample_at(4000, 100);
    s.process_sample_at(4000, 160);
    assert_eq!(s.peak_interval(), Some(60));
    s.process_sample_at(4000, 160);
    assert_eq!(s.peak_interval(), Some(60));
    assert_eq!(s.last_peak(), Some(160));
}

#[test]
fn earlier_time_keeps_estimate() {
    let mut s = MeasurementState::new();
    s.process_sample_at(0, 0);
    s.process_sample_at(4000, 500);
    s.process_sample_at(4000, 400);
    assert_eq!(s.peak_interval(), None);
    assert_eq!(s.last_peak(), Some(400));
}

#[test]
fn reset_clears_extrema_only() {
    let mut s = MeasurementState::new();
    s.process_sample_at(10, 0);
    s.process_sample_at(4000, 2);
    s.reset();
    assert_eq!(s.min(), u16::MAX);
    assert_eq!(s.max(), 0);
    assert_eq!(s.elapsed_us(), WINDOW_MICROS);
    assert_eq!(s.index(), 2);
    assert_eq!(s.sample_at(0), 10);
    assert_eq!(s.sample_at(1), 4000);
    assert_eq!(s.last_peak(), Some(2));
    s.reset();
    assert_eq!(s.elapsed_us(), 2 * WINDOW_MICROS);
}

#[test]
fn incomplete_window_emits_nothing() {
    let mut s = MeasurementState::new();
    s.process_sample_at(5, 0);
    assert_eq!(s.complete_window(), None);
    assert_eq!(s.max(), 5);
    assert_eq!(s.elapsed_us(), 0);
}

#[test]
fn completed_window_resets_after_measuring() {
    let mut s = MeasurementState::new();
    for i in 0..BUFFER_SIZE {
        s.process_sample_at(if i == 1000 { 3000 } else { 100 }, 2 * i as u64);
    }
    let m = s.complete_window().unwrap();
    assert_eq!(m.peak_code, 3000);
    assert_eq!(m.fwhm_us, 0);
    assert_eq!(s.max(), 0);
    assert_eq!(s.min(), u16::MAX);
    assert_eq!(s.elapsed_us(), WINDOW_MICROS);
    assert_eq!(s.sample_at(1000), 3000);
}

#[test]
fn replay_is_deterministic() {
    let samples: Vec<(u16, u64)> = (0..(2 * BUFFER_SIZE + 17))
        .map(|i| (((i * 37) % 211 * 19) as u16, 2 * i as u64))
        .collect();
    let first = replay(&samples);
    let second = replay(&samples);
    assert_eq!(first.len(), 2);
    assert_eq!(first, second);
    // other sample times change nothing but the interval
    let shifted: Vec<(u16, u64)> = samples.iter().map(|&(v, t)| (v, 3 * t + 5)).collect();
    let third = replay(&shifted);
    assert_eq!(third.len(), first.len());
    for (a, b) in first.iter().zip(third.iter()) {
        assert_eq!(a.fwhm_us, b.fwhm_us);
        assert_eq!(a.peak_code, b.peak_code);
    }
}

#[test]
fn clocked_processing_stores_and_detects() {
    let mut s = MeasurementState::new();
    s.process_sample(0);
    s.process_sample(4000);
    assert_eq!(s.index(), 2);
    assert_eq!(s.sample_at(1), 4000);
    assert_eq!(s.max(), 4000);
    assert!(s.last_peak().is_some());
    s.process_sample(0);
    s.process_sample(4000);
    let t = s.last_peak().unwrap();
    assert!(s.peak_interval().map_or(true, |i| i <= t));
}

#[test]
fn interval_spans_a_window_completion() {
    let mut s = MeasurementState::new();
    s.process_sample_at(0, 0);
    s.process_sample_at(4000, 2);
    assert_eq!(s.complete_window(), None);
    let mut completed = 0;
    for i in 2..(BUFFER_SIZE + 10) {
        s.process_sample_at(0, 2 * i as u64);
        if s.complete_window().is_some() {
            completed += 1;
        }
    }
    assert_eq!(completed, 1);
    assert_eq!(s.last_peak(), Some(2));
    s.process_sample_at(4000, 5000);
    assert_eq!(s.peak_interval(), Some(4998));
}
