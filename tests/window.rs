use mqtt_features::window::{TimingWindow, MAX_TIMESTAMP_US, WINDOW_LEN};

#[test]
fn first_update_has_zero_gap() {
    let mut w = TimingWindow::new();
    assert_eq!(w.update(1_000_000), (0, 0));
    assert_eq!(w.last_timestamp(), Some(1_000_000));
    assert_eq!(w.samples(), vec![0]);
}

#[test]
fn average_while_filling_is_truncated_incremental_mean() {
    let mut w = TimingWindow::new();
    w.update(0);
    // samples 0, 10: (0 * 1 + 10) / 2 = 5
    assert_eq!(w.update(10), (10, 5));
    // samples 0, 10, 30: (5 * 2 + 30) / 3 = 13
    assert_eq!(w.update(40), (30, 13));
    assert_eq!(w.average(), 13);
}

#[test]
fn average_with_whole_means_equals_direct_mean() {
    // gaps 0, 6, 6, ...: the means stay whole for the first three steps
    let mut w = TimingWindow::new();
    let mut ts: i64 = 0;
    let mut gaps: Vec<i64> = Vec::new();
    let mut all_whole = true;
    for k in 0..40i64 {
        let gap = if k == 0 { 0 } else { 6 };
        ts += gap;
        let (d, avg) = w.update(ts);
        assert_eq!(d, gap);
        gaps.push(gap);
        let start = gaps.len().saturating_sub(WINDOW_LEN);
        let window = &gaps[start..];
        let mean = window.iter().sum::<i64>() / window.len() as i64;
        all_whole = all_whole && window.iter().sum::<i64>() % window.len() as i64 == 0;
        if all_whole {
            assert_eq!(avg, mean);
        }
    }
}

#[test]
fn truncation_can_drift_from_direct_mean() {
    let mut w = TimingWindow::new();
    w.update(0);
    w.update(1);
    w.update(3);
    let (_, avg) = w.update(6);
    // samples 0, 1, 2, 3: incremental 0, 0, 0, (0 * 3 + 3) / 4 = 0; direct mean is 1
    assert_eq!(avg, 0);
}

#[test]
fn full_window_evicts_oldest() {
    let mut w = TimingWindow::new();
    let mut ts: i64 = 0;
    w.update(ts);
    for _ in 0..19 {
        ts += 100;
        w.update(ts);
    }
    assert_eq!(w.samples().len(), WINDOW_LEN);
    // average over 0 and nineteen gaps of 100: truncated at each step
    let before = w.average();
    ts += 100;
    let (d, avg) = w.update(ts);
    assert_eq!(d, 100);
    assert_eq!(avg, (before * 20 - 0 + 100) / 20);
    assert_eq!(w.samples(), vec![100; 20]);
}

#[test]
fn negative_gap_truncates_toward_zero() {
    let mut w = TimingWindow::new();
    w.update(100);
    // samples 0, -5: (0 - 5) / 2 truncates to -2
    assert_eq!(w.update(95), (-5, -2));
}

#[test]
fn reset_forgets_history() {
    let mut w = TimingWindow::new();
    w.update(MAX_TIMESTAMP_US);
    w.update(MAX_TIMESTAMP_US);
    w.reset();
    assert_eq!(w.last_timestamp(), None);
    assert_eq!(w.samples(), Vec::<i64>::new());
    assert_eq!(w.average(), 0);
}
