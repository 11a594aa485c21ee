use deepseek_proxy::metrics::DailyTokenGauges;
use deepseek_proxy::usage::{estimate_input_tokens, scan_usage, Message, StreamUsage, UsageCounts};

fn msg(content: &str) -> Message {
    Message { role: "user".to_string(), content: content.to_string() }
}

#[test]
fn input_estimate_counts_words_and_cjk_characters() {
    assert_eq!(estimate_input_tokens(&[]), 0);
    assert_eq!(estimate_input_tokens(&[msg("hello world")]), 2);
    assert_eq!(estimate_input_tokens(&[msg("  spaced \t out\n")]), 2);
    assert_eq!(estimate_input_tokens(&[msg("你好 world")]), 4);
    assert_eq!(estimate_input_tokens(&[msg("a b"), msg("中文字")]), 2 + 3 + 1);
}

const FRAME: &str = "data: {\"usage\":{\"prompt_tokens\":10,\"completion_tokens\":20,\"prompt_cache_hit_tokens\":3,\"prompt_cache_miss_tokens\":7}}";

#[test]
fn usage_frame_is_found_among_other_lines() {
    let text = format!("data: {{\"choices\":[]}}\n\n{}\r\n\ndata: [DONE]\n\n", FRAME);
    assert_eq!(
        scan_usage(&text),
        Some(UsageCounts { prompt_tokens: 10, completion_tokens: 20, prompt_cache_hit_tokens: 3, prompt_cache_miss_tokens: 7 })
    );
    assert_eq!(scan_usage("data: [DONE]\n"), None);
    assert_eq!(scan_usage("event: ping\ndata: not json\n"), None);
    assert_eq!(scan_usage(""), None);
    let partial = scan_usage("data:{\"usage\":{\"completion_tokens\":5}}").unwrap();
    assert_eq!((partial.prompt_tokens, partial.completion_tokens), (0, 5));
}

#[test]
fn stream_reports_usage_once_or_estimates_from_bytes() {
    let mut s = StreamUsage::new("alice".to_string());
    assert_eq!(s.observe_chunk(10, Some("data: {\"choices\":[]}")), None);
    assert!(s.observe_chunk(FRAME.len(), Some(FRAME)).is_some());
    assert_eq!(s.observe_chunk(FRAME.len(), Some(FRAME)), None);
    assert_eq!(s.finish(), None);

    let mut s = StreamUsage::new("bob".to_string());
    s.observe_chunk(100, Some("data: {}"));
    s.observe_chunk(3, None);
    assert_eq!(s.finish(), Some(25));
    assert_eq!(s.finish(), None);
}

#[test]
fn daily_gauges_roll_over_at_a_new_date() {
    let mut g = DailyTokenGauges::new("2025-01-31".to_string());
    g.record_input_tokens("2025-01-31", 5);
    g.record_output_tokens("2025-01-31", 7);
    g.record_prompt_cache_hit_tokens("2025-01-31", 2);
    g.record_prompt_cache_miss_tokens("2025-01-31", 3);
    assert_eq!(g.values(), (5, 7, 2, 3));
    g.record_input_tokens("2025-02-01", 1);
    assert_eq!(g.values(), (1, 0, 0, 0));
    g.restore("2025-02-01", 10, 20, 30, 40);
    g.rollover_if_needed("2025-02-01");
    assert_eq!(g.values(), (10, 20, 30, 40));
}
