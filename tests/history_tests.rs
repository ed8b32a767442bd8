use std::collections::VecDeque;

use llama_swap_swiftbar::models::{
    isqrt, AllMetricsHistory, DataAnalyzer, Metrics, MetricsHistory, ModelMetrics, ModelState,
    RunningModel, SystemMetrics, TimestampedValue, MAX_CAPACITY, MAX_SAMPLE_VALUE, UNITS_PER_WHOLE,
};

fn units(x: f64) -> u64 {
    (x * UNITS_PER_WHOLE as f64).round() as u64
}

fn metrics(tps: f64, processing: u32, deferred: u32) -> Metrics {
    Metrics {
        prompt_tokens_per_sec: units(tps / 2.0),
        predicted_tokens_per_sec: units(tps),
        requests_processing: processing,
        requests_deferred: deferred,
        n_decode_total: 0,
        memory_mb: units(100.0),
    }
}

fn values_oldest_first(history: &MetricsHistory) -> Vec<u64> {
    history.tps.asc_iter().map(|s| s.value).collect()
}

#[test]
fn bounded_buffer_keeps_last_capacity_values() {
    let mut history = MetricsHistory::with_capacity(4);
    for i in 1..=10u64 {
        history.push_at(&metrics(i as f64, 0, 0), 1_000 + i);
    }
    assert_eq!(history.tps.len(), 4);
    assert_eq!(values_oldest_first(&history), vec![units(7.0), units(8.0), units(9.0), units(10.0)]);
}

#[test]
fn capacity_three_scenario_stats() {
    let mut history = MetricsHistory::with_capacity(3);
    history.push_at(&metrics(1.0, 0, 0), 100);
    history.push_at(&metrics(2.0, 0, 0), 200);
    history.push_at(&metrics(3.0, 0, 0), 300);
    history.push_at(&metrics(4.0, 0, 0), 400);
    assert_eq!(values_oldest_first(&history), vec![units(2.0), units(3.0), units(4.0)]);
    let stats = history.get_stats(&history.tps);
    assert_eq!(stats.mean, units(3.0));
    assert_eq!(stats.min, units(2.0));
    assert_eq!(stats.max, units(4.0));
    assert_eq!(stats.count, 3);
    assert_eq!(stats.current, units(4.0));
}

#[test]
fn push_at_trims_to_model_window() {
    let mut history = MetricsHistory::with_capacity(10);
    history.push_at(&metrics(1.0, 0, 0), 1_000);
    history.push_at(&metrics(2.0, 0, 0), 1_200);
    // 1_000 is older than 1_310 - 305.
    history.push_at(&metrics(3.0, 0, 0), 1_310);
    assert_eq!(values_oldest_first(&history), vec![units(2.0), units(3.0)]);
}

#[test]
fn trim_twice_equals_trim_once() {
    let mut once = MetricsHistory::with_capacity(10);
    let mut twice = MetricsHistory::with_capacity(10);
    for (i, t) in [100u64, 150, 200, 250, 300].iter().enumerate() {
        once.push_at(&metrics(i as f64, 0, 0), *t);
        twice.push_at(&metrics(i as f64, 0, 0), *t);
    }
    once.trim_before(200);
    twice.trim_before(200);
    twice.trim_before(200);
    assert_eq!(values_oldest_first(&once), values_oldest_first(&twice));
    assert_eq!(once.tps.len(), 3);
}

#[test]
fn stats_on_fresh_history_are_zero() {
    let history = MetricsHistory::with_capacity(5);
    let stats = history.get_stats(&history.tps);
    assert_eq!(stats.count, 0);
    assert_eq!(stats.mean, 0);
    assert_eq!(stats.min, 0);
    assert_eq!(stats.max, 0);
    assert_eq!(stats.std_dev, 0);
    assert_eq!(stats.current, 0);
}

#[test]
fn stats_round_down() {
    let mut deque = VecDeque::new();
    for (t, v) in [(1u64, 1u64), (2, 2), (3, 4)] {
        DataAnalyzer::push_value_to_deque(&mut deque, v, t, 10);
    }
    let stats = DataAnalyzer::get_stats(&deque);
    // Mean 7/3 rounds down to 2; variance (3 * 21 - 49) / 9 = 14/9, whose root 1.247 rounds down to 1.
    assert_eq!(stats.mean, 2);
    assert_eq!(stats.std_dev, 1);
    assert_eq!(stats.min, 1);
    assert_eq!(stats.max, 4);
}

#[test]
fn integer_square_root() {
    assert_eq!(isqrt(0), 0);
    assert_eq!(isqrt(1), 1);
    assert_eq!(isqrt(15), 3);
    assert_eq!(isqrt(16), 4);
    assert_eq!(isqrt(u128::MAX), u64::MAX);
}

#[test]
fn deque_push_with_zero_max_size_keeps_nothing() {
    let mut deque = VecDeque::new();
    DataAnalyzer::push_value_to_deque(&mut deque, 5, 1, 0);
    assert_eq!(deque.len(), 0);
}

#[test]
fn trim_deque_stops_at_first_recent_sample() {
    let mut deque: VecDeque<TimestampedValue> = VecDeque::new();
    for t in [100u64, 300, 200, 400] {
        DataAnalyzer::push_value_to_deque(&mut deque, t, t, 10);
    }
    DataAnalyzer::trim_deque(&mut deque, 250);
    let left: Vec<u64> = deque.iter().map(|s| s.timestamp).collect();
    assert_eq!(left, vec![300, 200, 400]);
}

#[test]
fn model_state_from_text() {
    let model = |s: &str| RunningModel { model: "m".to_string(), state: s.to_string() };
    assert_eq!(model("ready").model_state(), ModelState::Running);
    assert_eq!(model("starting").model_state(), ModelState::Loading);
    assert_eq!(model("stopping").model_state(), ModelState::Loading);
    assert_eq!(model("").model_state(), ModelState::Unknown);
    assert_eq!(model("Ready").model_state(), ModelState::Unknown);
}

#[test]
fn all_history_records_and_prunes_models() {
    let mut all = AllMetricsHistory::with_capacity(5);
    all.record_model(&"a".to_string(), &metrics(1.0, 0, 0), 1_000);
    all.record_model(&"b".to_string(), &metrics(2.0, 0, 0), 1_000);
    all.record_model(&"a".to_string(), &metrics(3.0, 0, 0), 1_200);
    assert_eq!(all.models.len(), 2);
    let a = all.get_model_history("a").unwrap();
    assert_eq!(values_oldest_first(a), vec![units(1.0), units(3.0)]);
    assert!(all.get_model_history("c").is_none());

    // At 1_400 the samples of 1_000 have left the window: "b" empties and goes.
    all.trim_old_data_at(1_400);
    assert_eq!(all.models.len(), 1);
    assert_eq!(all.models[0].model_name, "a");
    assert_eq!(values_oldest_first(&all.models[0].history), vec![units(3.0)]);
}

#[test]
fn all_history_system_series() {
    let mut all = AllMetricsHistory::with_capacity(2);
    let sys = |c: f64| SystemMetrics {
        cpu_usage_percent: units(c),
        used_memory_gb: units(8.0),
        memory_usage_percent: units(50.0),
    };
    all.record_system(&sys(10.0), units(500.0), 1_000);
    all.record_system(&sys(20.0), units(500.0), 1_001);
    all.record_system(&sys(30.0), units(700.0), 1_002);
    let cpu = all.get_cpu_stats();
    assert_eq!(cpu.count, 2);
    assert_eq!(cpu.mean, units(25.0));
    assert_eq!(cpu.std_dev, units(5.0));
    assert_eq!(all.get_memory_stats().max, units(700.0));
    assert_eq!(all.get_system_memory_stats().min, units(50.0));
}

#[test]
fn all_history_push_records_every_model() {
    let mut all = AllMetricsHistory::new();
    let probe = llama_swap_swiftbar::models::AllMetrics {
        models: vec![
            ModelMetrics { model_name: "x".to_string(), model_state: ModelState::Running, metrics: metrics(5.0, 1, 0) },
            ModelMetrics { model_name: "y".to_string(), model_state: ModelState::Loading, metrics: Metrics::default() },
        ],
        total_llama_memory_mb: units(10.0),
        system_metrics: SystemMetrics { cpu_usage_percent: 0, used_memory_gb: 0, memory_usage_percent: 0 },
    };
    all.push(&probe);
    assert_eq!(all.models.len(), 2);
    assert_eq!(all.cpu_usage_percent.len(), 1);
    assert_eq!(all.get_model_history("x").unwrap().queue_size.iter().next().unwrap().value, units(1.0));
}

#[test]
fn push_stamps_samples_with_the_clock() {
    let before = std::time::SystemTime::now().duration_since(std::time::UNIX_EPOCH).unwrap().as_secs();
    let mut history = MetricsHistory::with_capacity(2);
    history.push(&metrics(1.0, 0, 0));
    let after = std::time::SystemTime::now().duration_since(std::time::UNIX_EPOCH).unwrap().as_secs();
    let stamp = history.tps.iter().next().unwrap().timestamp;
    assert!(before <= stamp && stamp <= after);
}

#[test]
fn largest_capacity_and_largest_values() {
    let mut deque = VecDeque::new();
    for t in 0..MAX_CAPACITY as u64 {
        DataAnalyzer::push_value_to_deque(&mut deque, MAX_SAMPLE_VALUE, t, MAX_CAPACITY);
    }
    DataAnalyzer::push_value_to_deque(&mut deque, 0, MAX_CAPACITY as u64, MAX_CAPACITY);
    assert_eq!(deque.len(), MAX_CAPACITY);
    let stats = DataAnalyzer::get_stats(&deque);
    assert_eq!(stats.count, MAX_CAPACITY);
    assert_eq!(stats.max, MAX_SAMPLE_VALUE);
    assert_eq!(stats.min, 0);
    assert_eq!(stats.current, 0);
    // One zero among 65_535 maxima: the mean is just under the maximum.
    let n = MAX_CAPACITY as u128;
    assert_eq!(stats.mean as u128, (MAX_SAMPLE_VALUE as u128 * (n - 1)) / n);
    let history = MetricsHistory::with_capacity(MAX_CAPACITY);
    assert_eq!(history.tps.capacity(), MAX_CAPACITY);
}

#[test]
fn trim_with_rising_cutoffs_equals_last_trim() {
    let mut stepwise = MetricsHistory::with_capacity(10);
    let mut direct = MetricsHistory::with_capacity(10);
    for (i, t) in [100u64, 150, 200, 250, 300].iter().enumerate() {
        stepwise.push_at(&metrics(i as f64, 0, 0), *t);
        direct.push_at(&metrics(i as f64, 0, 0), *t);
    }
    stepwise.trim_before(150);
    stepwise.trim_before(250);
    direct.trim_before(250);
    assert_eq!(values_oldest_first(&stepwise), values_oldest_first(&direct));
    assert_eq!(direct.tps.len(), 2);
}
