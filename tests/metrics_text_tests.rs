use llama_swap_swiftbar::metrics::{infer_model_from_command, metric_key, split_metric_line};
use llama_swap_swiftbar::text::{find, trim};

fn parsed(text: &str) -> Vec<(&'static str, f64)> {
    text.lines()
        .filter_map(split_metric_line)
        .filter_map(|(name, value)| Some((metric_key(&name)?, value.parse::<f64>().ok()?)))
        .collect()
}

fn value_of(metrics: &[(&'static str, f64)], key: &str) -> Option<f64> {
    metrics.iter().find(|(k, _)| *k == key).map(|(_, v)| *v)
}

#[test]
fn test_prometheus_parsing() {
    let sample_prometheus = r"# HELP llamacpp:prompt_tokens_seconds Prompt tokens per second
# TYPE llamacpp:prompt_tokens_seconds gauge
llamacpp:prompt_tokens_seconds 150.5
# HELP llamacpp:predicted_tokens_seconds Predicted tokens per second  
# TYPE llamacpp:predicted_tokens_seconds gauge
llamacpp:predicted_tokens_seconds 25.3
# HELP llamacpp:requests_processing Number of requests being processed
# TYPE llamacpp:requests_processing gauge
llamacpp:requests_processing 2";

    let metrics = parsed(sample_prometheus);

    assert_eq!(value_of(&metrics, "prompt_tokens_per_sec"), Some(150.5));
    assert_eq!(value_of(&metrics, "predicted_tokens_per_sec"), Some(25.3));
    assert_eq!(value_of(&metrics, "requests_processing"), Some(2.0));
}

#[test]
fn test_prometheus_with_labels() {
    let sample = r#"llamacpp:prompt_tokens_seconds{model="llama3.2:1b"} 150.5"#;

    let (name, value) = split_metric_line(sample).unwrap();
    assert_eq!(name, "llamacpp:prompt_tokens_seconds");
    assert_eq!(value.parse::<f64>().unwrap(), 150.5);
}

#[test]
fn metric_lines_that_are_skipped() {
    assert!(split_metric_line("# HELP x").is_none());
    assert!(split_metric_line("   ").is_none());
    assert!(split_metric_line("no_value").is_none());
    assert_eq!(split_metric_line("a b c"), Some(("a".to_string(), "b c".to_string())));
    assert_eq!(metric_key("llamacpp:n_decode_total"), Some("n_decode_total"));
    assert_eq!(metric_key("llamacpp:kv_cache"), None);
}

#[test]
fn model_inferred_from_command_line() {
    assert_eq!(
        infer_model_from_command("llama-server --model /models/qwen/Qwen3-8B.gguf --port 8080"),
        Some("Qwen3-8B".to_string())
    );
    assert_eq!(infer_model_from_command("llama-server --model tiny.bin"), Some("tiny.bin".to_string()));
    assert_eq!(infer_model_from_command("llama-server --port 8902 --metrics"), Some("Port 8902".to_string()));
    assert_eq!(infer_model_from_command("llama-server --port 8902\n"), Some("Port 8902".to_string()));
    assert_eq!(infer_model_from_command("llama-server --port "), None);
    assert_eq!(infer_model_from_command("llama-swap -config x"), None);
}

#[test]
fn text_search_and_trim() {
    assert_eq!(find("hello world", "o w"), Some(4));
    assert_eq!(find("hello", "xyz"), None);
    assert_eq!(find("abc", ""), Some(0));
    assert_eq!(trim("\t  port 1 \n"), "port 1");
    assert_eq!(trim("\u{3000}x\u{a0}"), "x");
    assert_eq!(trim("   "), "");
}
