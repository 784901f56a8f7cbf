use std::collections::VecDeque;

use jfc::timeline::{
    anomaly_flags, doubled_median, last_user_prompt, Amount, App, HitRate, ModelTotals, RequestFacts, TimelineSample,
    TIMELINE_CAP,
};
use jfc::transcript::ChatMessage;

const DOLLAR: f64 = 1_000_000_000.0;

fn sample(cost: f64, input: u64, cache_read: u64, cache_write: u64) -> TimelineSample {
    TimelineSample {
        cost_delta: (cost * DOLLAR) as u64,
        input_delta: input,
        cache_read_delta: cache_read,
        cache_write_delta: cache_write,
        context_window_tokens: 1_000_000,
        ..Default::default()
    }
}

fn steady(cost: f64, input: u64, cache_read: u64) -> VecDeque<TimelineSample> {
    let mut recent = VecDeque::new();
    for _ in 0..6 {
        recent.push_back(sample(cost, input, cache_read, 0));
    }
    recent
}

#[test]
fn cache_write_spike_is_not_flagged_as_cost_spike_robust() {
    let recent = steady(0.40, 2, 50_000);
    let write_heavy = sample(2.00, 2, 0, 120_000);
    let flags = anomaly_flags(&write_heavy, &recent);
    assert!(flags.contains(&"cache_rewrite".to_owned()));
    assert!(!flags.contains(&"cost_spike".to_owned()), "cache-write cost must not trip cost_spike");
}

#[test]
fn genuine_cost_and_input_spike_fires_normal() {
    let recent = steady(0.20, 100, 50_000);
    let expensive = sample(1.50, 8_000, 50_000, 0);
    let flags = anomaly_flags(&expensive, &recent);
    assert!(flags.contains(&"cost_spike".to_owned()));
    assert!(flags.contains(&"input_spike".to_owned()));
    assert!(!flags.contains(&"cache_rewrite".to_owned()));
}

#[test]
fn first_request_has_no_baseline_flags_normal() {
    let flags = anomaly_flags(&sample(5.0, 9_999, 0, 0), &VecDeque::new());
    assert!(!flags.contains(&"cost_spike".to_owned()));
    assert!(!flags.contains(&"input_spike".to_owned()));
}

#[test]
fn cheap_request_doubling_a_near_zero_neighbor_is_not_a_spike_robust() {
    let recent = steady(0.01, 2, 1_000);
    let flags = anomaly_flags(&sample(0.05, 2, 1_000, 0), &recent);
    assert!(!flags.contains(&"cost_spike".to_owned()));
}

#[test]
fn a_full_context_is_flagged() {
    let mut full = sample(0.0, 0, 0, 0);
    full.context_used_tokens = 850_000;
    assert!(anomaly_flags(&full, &VecDeque::new()).iter().any(|f| f.contains("context")));
    full.context_used_tokens = 849_999;
    assert!(!anomaly_flags(&full, &VecDeque::new()).iter().any(|f| f.contains("context")));
}

#[test]
fn falling_cache_hits_are_flagged() {
    let hits = |read, input| {
        let mut s = sample(0.0, input, read, 0);
        s.cache_hit = HitRate { read, input };
        s
    };
    let flagged = |before: (u64, u64), now: (u64, u64)| {
        let recent: VecDeque<TimelineSample> = [hits(before.0, before.1)].into_iter().collect();
        anomaly_flags(&hits(now.0, now.1), &recent).contains(&"cache_hit_drop".to_owned())
    };
    // In double precision 55 of 100 are a little more than 55 percent.
    assert!(flagged((55, 100), (35, 100)));
    assert!(!flagged((50, 100), (30, 100)));
    assert!(!flagged((39, 100), (0, 100)));
    assert!(flagged((900, 100), (79, 100)));
    assert!(!flagged((100, 100), (80, 100)));
    for (a, b, c, d) in [(57u64, 90u64, 11u64, 31u64), (3, 7, 1, u64::MAX), (13, 29, 7, 28), (999, 1000, 0, 3)] {
        let percent = |read: u64, input: u64| (read as f64 / input as f64 * 100.0).min(100.0);
        let expected = percent(a, b) >= 40.0 && percent(c, d) < percent(a, b) - 20.0;
        assert_eq!(flagged((a, b), (c, d)), expected);
    }
}

#[test]
fn medians_lie_in_the_middle() {
    let amounts = |v: &[u64]| -> Vec<Amount> { v.iter().map(|n| Amount { n: *n }).collect() };
    assert_eq!(doubled_median(amounts(&[9, 1, 5])), 10);
    assert_eq!(doubled_median(amounts(&[1, 2, 3, 10])), 5);
}

fn facts(ts_unix: u64) -> RequestFacts {
    RequestFacts {
        ts_unix,
        model: "big".to_owned(),
        prompt: Some("go".to_owned()),
        context_used_tokens: 1,
        context_window_tokens: 1_000_000,
        rsi_prompt_sections: 2,
        rsi_tool_visibility_rules: 3,
    }
}

fn totals(input_tokens: u64, output_tokens: u64) -> ModelTotals {
    ModelTotals { input_tokens, output_tokens, cache_read_tokens: 5, cache_write_tokens: 0, thinking_tokens: 0 }
}

#[test]
fn requests_are_recorded_by_what_they_add() {
    let mut app = App { timeline: VecDeque::new(), timeline_baseline: Default::default() };
    app.record_timeline_sample(&[totals(100, 10), totals(1, 2)], 700, facts(1));
    assert_eq!(app.timeline.len(), 1);
    assert_eq!((app.timeline[0].input_delta, app.timeline[0].output_delta), (101, 12));
    assert_eq!((app.timeline[0].cost_delta, app.timeline[0].cache_read_delta), (700, 10));
    // Nothing was used since: no sample.
    app.record_timeline_sample(&[totals(100, 10), totals(1, 2)], 700, facts(2));
    assert_eq!(app.timeline.len(), 1);
    app.record_timeline_sample(&[totals(150, 10), totals(1, 2)], 900, facts(3));
    assert_eq!((app.timeline[1].input_delta, app.timeline[1].cost_delta), (50, 200));
    for i in 0..TIMELINE_CAP as u64 {
        app.record_timeline_sample(&[totals(200 + i, 10)], 900, facts(i));
    }
    assert_eq!(app.timeline.len(), TIMELINE_CAP);
}

#[test]
fn the_prompt_is_that_of_the_last_message_of_the_user() {
    let messages = vec![
        ChatMessage::user("old".to_owned()),
        ChatMessage::user("  fix\n the   bug ".to_owned()),
        ChatMessage::assistant("ok".to_owned()),
    ];
    assert_eq!(last_user_prompt(&messages).as_deref(), Some("fix the bug"));
    assert_eq!(last_user_prompt(&[ChatMessage::assistant("ok".to_owned())]), None);
}

#[test]
fn a_rewrite_of_the_cache_writes_more_than_the_bound() {
    let rewrites = |written| anomaly_flags(&sample(0.01, 2, 0, written), &VecDeque::new()).contains(&"cache_rewrite".to_owned());
    assert!(!rewrites(8_000));
    assert!(rewrites(8_001));
}
