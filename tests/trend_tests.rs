use llama_swap_swiftbar::models::{TimestampedValue, UNITS_PER_WHOLE};
use llama_swap_swiftbar::trend::{Trend, TrendAnalyzer};

fn series(points: &[(u64, f64)]) -> Vec<TimestampedValue> {
    points
        .iter()
        .map(|&(t, v)| TimestampedValue { timestamp: t, value: (v * UNITS_PER_WHOLE as f64).round() as u64 })
        .collect()
}

#[test]
fn fewer_than_three_samples_is_insufficient() {
    assert_eq!(TrendAnalyzer::trend(&series(&[])), Trend::Insufficient);
    assert_eq!(TrendAnalyzer::trend(&series(&[(1, 5.0)])), Trend::Insufficient);
    assert_eq!(TrendAnalyzer::trend(&series(&[(1, 5.0), (2, 50.0)])), Trend::Insufficient);
}

#[test]
fn flat_line_is_stable() {
    let points: Vec<(u64, f64)> = (0..10).map(|i| (100 + i, 7.5)).collect();
    assert_eq!(TrendAnalyzer::trend(&series(&points)), Trend::Stable);
}

#[test]
fn clear_rise_and_fall() {
    let up = series(&[(100, 10.0), (110, 12.0), (120, 14.0), (130, 20.0)]);
    assert_eq!(TrendAnalyzer::trend(&up), Trend::Increasing);
    let down = series(&[(100, 20.0), (110, 14.0), (120, 12.0), (130, 10.0)]);
    assert_eq!(TrendAnalyzer::trend(&down), Trend::Decreasing);
}

#[test]
fn small_change_is_stable() {
    // A change of 0.4 on a level of 10 stays under 5 percent.
    let s = series(&[(100, 10.0), (110, 10.2), (120, 10.1), (140, 10.4)]);
    assert_eq!(TrendAnalyzer::trend(&s), Trend::Stable);
}

#[test]
fn short_windows_need_a_larger_change() {
    // Over 10 s a change of 0.6 on a level of 10.6 is above 5 percent but under 7.5 percent.
    let s = series(&[(100, 10.0), (105, 10.3), (110, 10.6)]);
    assert_eq!(TrendAnalyzer::trend(&s), Trend::Stable);
    // Over 40 s the same change counts.
    let s = series(&[(100, 10.0), (120, 10.3), (140, 10.6)]);
    assert_eq!(TrendAnalyzer::trend(&s), Trend::Increasing);
}

#[test]
fn wide_window_is_preferred() {
    // Old samples rise steeply; the last 30 s are flat.
    let s = series(&[(0, 1.0), (10, 50.0), (100, 80.0), (110, 80.0), (120, 80.0)]);
    assert_eq!(TrendAnalyzer::trend(&s), Trend::Stable);
}

#[test]
fn anomalies_against_recent_mean() {
    let base = series(&[(1, 10.0), (2, 10.0), (3, 10.0), (4, 10.0), (5, 10.0)]);
    let units = |x: f64| (x * UNITS_PER_WHOLE as f64) as u64;
    assert!(TrendAnalyzer::is_anomalous(&base, units(16.0)));
    assert!(!TrendAnalyzer::is_anomalous(&base, units(15.0)));
    assert!(TrendAnalyzer::is_anomalous(&base, units(4.0)));
    assert!(!TrendAnalyzer::is_anomalous(&base, units(5.0)));
    assert!(!TrendAnalyzer::is_anomalous(&base[..4].to_vec(), units(100.0)));
    let mut long: Vec<(u64, f64)> = (0..20).map(|i| (i, 100.0)).collect();
    for p in long.iter_mut().skip(10) {
        p.1 = 10.0;
    }
    // Only the newest ten samples (all 10.0) count.
    assert!(TrendAnalyzer::is_anomalous(&series(&long), units(16.0)));
}
