use std::collections::VecDeque;

use llama_swap_swiftbar::models::{DataAnalyzer, Metrics, MetricsHistory, UNITS_PER_WHOLE};

// A whole-unit figure in the histories' fixed-point scale.
fn units(x: f64) -> u64 {
    (x * UNITS_PER_WHOLE as f64).round() as u64
}

fn as_float(v: u64) -> f64 {
    v as f64 / UNITS_PER_WHOLE as f64
}

#[test]
fn test_vecdeque_push_value_behavior() {
    let mut deque = VecDeque::new();
    let max_size = 3;

    DataAnalyzer::push_value_to_deque(&mut deque, units(1.0), 100, max_size);
    DataAnalyzer::push_value_to_deque(&mut deque, units(2.0), 200, max_size);
    DataAnalyzer::push_value_to_deque(&mut deque, units(3.0), 300, max_size);

    assert_eq!(deque.len(), 3);
    assert_eq!(deque[0].value, units(1.0));
    assert_eq!(deque[0].timestamp, 100);
    assert_eq!(deque[2].value, units(3.0));
    assert_eq!(deque[2].timestamp, 300);

    DataAnalyzer::push_value_to_deque(&mut deque, units(4.0), 400, max_size);

    assert_eq!(deque.len(), 3);
    assert_eq!(deque[0].value, units(2.0));
    assert_eq!(deque[0].timestamp, 200);
    assert_eq!(deque[2].value, units(4.0));
    assert_eq!(deque[2].timestamp, 400);
}

#[test]
fn test_vecdeque_stats_calculation() {
    let mut deque = VecDeque::new();
    let max_size = 5;

    DataAnalyzer::push_value_to_deque(&mut deque, units(1.0), 100, max_size);
    DataAnalyzer::push_value_to_deque(&mut deque, units(2.0), 200, max_size);
    DataAnalyzer::push_value_to_deque(&mut deque, units(3.0), 300, max_size);
    DataAnalyzer::push_value_to_deque(&mut deque, units(4.0), 400, max_size);
    DataAnalyzer::push_value_to_deque(&mut deque, units(5.0), 500, max_size);

    let stats = DataAnalyzer::get_stats(&deque);

    assert_eq!(stats.count, 5);
    assert_eq!(stats.current, units(5.0));
    assert_eq!(stats.min, units(1.0));
    assert_eq!(stats.max, units(5.0));
    assert_eq!(stats.mean, units(3.0));
    assert!((as_float(stats.std_dev) - std::f64::consts::SQRT_2).abs() < 0.0001);
}

#[test]
fn test_vecdeque_trim_functionality() {
    let mut deque = VecDeque::new();
    let max_size = 10;

    DataAnalyzer::push_value_to_deque(&mut deque, units(1.0), 100, max_size);
    DataAnalyzer::push_value_to_deque(&mut deque, units(2.0), 200, max_size);
    DataAnalyzer::push_value_to_deque(&mut deque, units(3.0), 300, max_size);
    DataAnalyzer::push_value_to_deque(&mut deque, units(4.0), 400, max_size);

    assert_eq!(deque.len(), 4);

    DataAnalyzer::trim_deque(&mut deque, 250);

    assert_eq!(deque.len(), 2);
    assert_eq!(deque[0].timestamp, 300);
    assert_eq!(deque[1].timestamp, 400);
}

#[test]
fn test_metrics_history_integration() {
    let mut history = MetricsHistory::with_capacity(3);

    let metrics1 = Metrics {
        predicted_tokens_per_sec: units(10.0),
        prompt_tokens_per_sec: units(5.0),
        memory_mb: units(100.0),
        requests_processing: 1,
        requests_deferred: 2,
        n_decode_total: 0,
    };

    let metrics2 = Metrics {
        predicted_tokens_per_sec: units(20.0),
        prompt_tokens_per_sec: units(10.0),
        memory_mb: units(200.0),
        requests_processing: 2,
        requests_deferred: 3,
        n_decode_total: 0,
    };

    let metrics3 = Metrics {
        predicted_tokens_per_sec: units(30.0),
        prompt_tokens_per_sec: units(15.0),
        memory_mb: units(300.0),
        requests_processing: 3,
        requests_deferred: 4,
        n_decode_total: 0,
    };

    history.push(&metrics1);
    assert_eq!(history.tps.len(), 1);
    assert_eq!(history.queue_size.len(), 1);

    history.push(&metrics2);
    assert_eq!(history.tps.len(), 2);

    history.push(&metrics3);
    assert_eq!(history.tps.len(), 3);

    assert_eq!(history.queue_size.iter().next().unwrap().value, units(7.0));

    let metrics4 = Metrics {
        predicted_tokens_per_sec: units(40.0),
        prompt_tokens_per_sec: units(20.0),
        memory_mb: units(400.0),
        requests_processing: 4,
        requests_deferred: 5,
        n_decode_total: 0,
    };

    history.push(&metrics4);
    assert_eq!(history.tps.len(), 3);
    assert_eq!(history.tps.iter().last().unwrap().value, units(20.0));
    assert_eq!(history.tps.iter().next().unwrap().value, units(40.0));
}

#[test]
fn test_empty_deque_stats() {
    let empty_deque = VecDeque::new();
    let stats = DataAnalyzer::get_stats(&empty_deque);

    assert_eq!(stats.count, 0);
    assert_eq!(stats.current, 0);
    assert_eq!(stats.mean, 0);
    assert_eq!(stats.min, 0);
    assert_eq!(stats.max, 0);
    assert_eq!(stats.std_dev, 0);
}

#[test]
fn deque_keeps_last_max_size_of_many_pushes() {
    let mut deque = VecDeque::new();
    for i in 1..=10u64 {
        DataAnalyzer::push_value_to_deque(&mut deque, units(i as f64), 100 * i, 4);
    }
    assert_eq!(deque.len(), 4);
    let values: Vec<u64> = deque.iter().map(|s| s.value).collect();
    assert_eq!(values, vec![units(7.0), units(8.0), units(9.0), units(10.0)]);
    assert_eq!(deque[0].timestamp, 700);
}
