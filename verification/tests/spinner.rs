use jfc::spinner::{
    fmt_elapsed, fmt_tokens, format_compact_status, format_finished, frame_for, next_phase,
    quiet_status, reduced_motion, status_segments, trim_token_samples, windowed_token_rate, RawPhaseInputs,
    SpinnerPhase, SpinnerState, ThinkingStatus, FRAMES,
};
use jfc::tick::{advance_spinner, EngineSignals};
use jfc::time::{Duration, Instant};


fn streaming_responding() -> RawPhaseInputs {
    RawPhaseInputs {
        compacting: false,
        network_recovery: false,
        is_streaming: true,
        thinking_live: false,
        thinking_ended: true,
        output_started: true,
        tools_pending: false,
        turn_active: true,
    }
}

#[test]
fn phase_holds_thinking_for_min_display_normal() {
    let t0 = Instant::at_nanos(1_000_000_000_000);
    let raw = streaming_responding();
    // 500ms after Thinking began → still Thinking (held).
    assert_eq!(
        next_phase(
            SpinnerPhase::Thinking,
            t0,
            Some(t0),
            t0.checked_add(Duration::from_millis(500)).unwrap(),
            raw
        ),
        SpinnerPhase::Thinking
    );
    // Past the 2s floor → Responding allowed.
    assert_eq!(
        next_phase(
            SpinnerPhase::Thinking,
            t0,
            Some(t0),
            t0.checked_add(Duration::from_millis(2100)).unwrap(),
            raw
        ),
        SpinnerPhase::Responding
    );
}

#[test]
fn phase_dwell_suppresses_fast_soft_switch_robust() {
    let t0 = Instant::at_nanos(1_000_000_000_000);
    let raw = RawPhaseInputs {
        is_streaming: false,
        tools_pending: true,
        ..streaming_responding()
    };
    // Only 100ms in Responding → ToolUse switch suppressed.
    assert_eq!(
        next_phase(
            SpinnerPhase::Responding,
            t0,
            None,
            t0.checked_add(Duration::from_millis(100)).unwrap(),
            raw
        ),
        SpinnerPhase::Responding
    );
    // After the dwell floor → transition allowed.
    assert_eq!(
        next_phase(
            SpinnerPhase::Responding,
            t0,
            None,
            t0.checked_add(Duration::from_millis(500)).unwrap(),
            raw
        ),
        SpinnerPhase::ToolUse
    );
}

#[test]
fn phase_compacting_overrides_dwell_immediately_robust() {
    let t0 = Instant::at_nanos(1_000_000_000_000);
    let raw = RawPhaseInputs {
        compacting: true,
        ..streaming_responding()
    };
    // Entered Responding 10ms ago, but compaction must win now.
    assert_eq!(
        next_phase(
            SpinnerPhase::Responding,
            t0,
            None,
            t0.checked_add(Duration::from_millis(10)).unwrap(),
            raw
        ),
        SpinnerPhase::Compacting
    );
}

#[test]
fn elapsed_format_under_60s_normal() {
    assert_eq!(fmt_elapsed(Duration::from_secs(0)), "0s");
    assert_eq!(fmt_elapsed(Duration::from_secs(7)), "7s");
    assert_eq!(fmt_elapsed(Duration::from_secs(59)), "59s");
}

#[test]
fn elapsed_format_minutes_zero_padded_normal() {
    assert_eq!(fmt_elapsed(Duration::from_secs(60)), "1m00s");
    assert_eq!(fmt_elapsed(Duration::from_secs(64)), "1m04s");
    assert_eq!(fmt_elapsed(Duration::from_secs(310)), "5m10s");
    assert_eq!(fmt_elapsed(Duration::from_secs(3661)), "61m01s");
}

#[test]
fn token_format_thresholds_normal() {
    assert_eq!(fmt_tokens(0), "0");
    assert_eq!(fmt_tokens(42), "42");
    assert_eq!(fmt_tokens(999), "999");
    assert_eq!(fmt_tokens(1_000), "1.0k");
    assert_eq!(fmt_tokens(1_456), "1.5k");
    assert_eq!(fmt_tokens(14_600), "14k");
    assert_eq!(fmt_tokens(2_000_000), "2.0M");
}

#[test]
fn frame_cycle_wraps_robust() {
    assert_eq!(frame_for(0), "·");
    assert_eq!(frame_for(2), "✦");
    assert_eq!(frame_for(5), "✽");
    assert_eq!(frame_for(6), "·"); // wraps
    assert_eq!(frame_for(usize::MAX), FRAMES[usize::MAX % FRAMES.len()]);
}

#[test]
fn quiet_status_is_honest_normal() {
    // Fresh / brief gaps say nothing.
    assert_eq!(quiet_status(Duration::from_secs(0)), None);
    assert_eq!(quiet_status(Duration::from_secs(7)), None);
    // Past the threshold it states the measured silence — and never
    // fabricates "almost done thinking".
    assert_eq!(
        quiet_status(Duration::from_secs(8)).as_deref(),
        Some("quiet 8s")
    );
    assert_eq!(
        quiet_status(Duration::from_secs(62)).as_deref(),
        Some("quiet 1m02s")
    );
}

#[test]
fn status_responding_shows_tokens_and_rate_normal() {
    let s = status_segments(
        2,
        Duration::from_secs(82),
        2_400,
        Some(47),
        Duration::from_secs(1),
        None,
        0,
    );
    assert_eq!(s.glyph, frame_for(2));
    assert!(s.body.contains("1m22s"), "elapsed missing: {}", s.body);
    assert!(s.body.contains("2.4k tokens"), "tokens missing: {}", s.body);
    assert!(s.body.contains("47 tok/s"), "rate missing: {}", s.body);
    assert!(!s.dim, "fresh stream should not be dim");
}

#[test]
fn status_live_thinking_shows_thinking_tokens_normal() {
    let s = status_segments(
        0,
        Duration::from_secs(64),
        0,
        Some(18),
        Duration::from_secs(2),
        Some(ThinkingStatus::Live),
        1_200,
    );
    // The leading elapsed chip shows the live duration once.
    assert!(s.body.contains("1m04s"), "elapsed missing: {}", s.body);
    // Regression guard: the duration must NOT be repeated as a redundant
    // `thinking {elapsed}` chip — that rendered "1m04s" twice
    // (`Thinking · 1m04s · thinking 1m04s`).
    assert!(
        !s.body.contains("thinking 1m04s"),
        "duration should not be doubled as a `thinking {{elapsed}}` chip: {}",
        s.body
    );
    assert_eq!(
        s.body.matches("1m04s").count(),
        1,
        "elapsed should appear exactly once: {}",
        s.body
    );
    // Cumulative thinking-token total, rendered as `1.2k thinking`
    // (matches the module-doc status line), no `~` estimate marker.
    assert!(
        s.body.contains("1.2k thinking"),
        "thinking token total missing: {}",
        s.body
    );
    assert!(
        !s.body.contains('~'),
        "thinking tokens should be the total, not a ~ estimate: {}",
        s.body
    );
    assert!(
        s.body.contains("18 tok/s"),
        "thinking rate missing: {}",
        s.body
    );
}

#[test]
fn status_done_thinking_shows_duration_then_output_normal() {
    let s = status_segments(
        0,
        Duration::from_secs(60),
        5_000,
        Some(40),
        Duration::from_secs(0),
        Some(ThinkingStatus::Done(Duration::from_secs(12))),
        0,
    );
    assert!(
        s.body.contains("thought 12s"),
        "thought chip missing: {}",
        s.body
    );
    assert!(
        s.body.contains("5.0k tokens"),
        "output tokens missing: {}",
        s.body
    );
}

#[test]
fn status_done_thinking_floors_to_one_second_robust() {
    let s = status_segments(
        0,
        Duration::from_secs(5),
        100,
        None,
        Duration::from_secs(0),
        Some(ThinkingStatus::Done(Duration::from_millis(400))),
        0,
    );
    assert!(
        s.body.contains("thought 1s"),
        "expected 1s floor: {}",
        s.body
    );
}

#[test]
fn status_working_before_any_output_robust() {
    let s = status_segments(
        0,
        Duration::from_secs(2),
        0,
        None,
        Duration::from_secs(0),
        None,
        0,
    );
    assert!(!s.body.contains("tokens"), "no token chip yet: {}", s.body);
    assert!(s.body.contains("2s"));
}

#[test]
fn status_dims_and_chips_when_quiet_normal() {
    let s = status_segments(
        0,
        Duration::from_secs(90),
        500,
        None,
        Duration::from_secs(47),
        None,
        0,
    );
    assert!(s.dim, "47s of silence should dim the row");
    assert!(
        s.body.contains("quiet 47s"),
        "quiet chip missing: {}",
        s.body
    );
}

#[test]
fn windowed_rate_basic_normal() {
    let mut samples = std::collections::VecDeque::new();
    samples.push_back((Duration::from_millis(0), 0u64));
    samples.push_back((Duration::from_millis(2000), 100u64));
    let rate = windowed_token_rate(&samples).expect("should produce a rate");
    assert!((rate as f64 - 50.0).abs() < 0.1, "expected 50 tok/s, got {rate}");
}

#[test]
fn rates_are_rounded_in_double_precision() {
    let rate = |ms, tokens| {
        let samples: std::collections::VecDeque<(Duration, u64)> =
            [(Duration::from_millis(0), 0), (Duration::from_millis(ms), tokens)].into_iter().collect();
        windowed_token_rate(&samples)
    };
    // The double next to 7.5 lies below it.
    assert_eq!(rate(4400, 33), Some(7));
    assert_eq!(rate(2000, 15), Some(8));
    assert_eq!(rate(2000, 17), Some(8));
    assert_eq!(rate(2000, 2), Some(1));
    assert_eq!(rate(2000, 1), None);
    for (ms, tokens) in [(1200u64, 7u64), (1_234, 999), (86_400_123, 5_000_000_000), (3_300, 41), (7_777, u64::MAX)] {
        let double = tokens as f64 / std::time::Duration::from_millis(ms).as_secs_f64();
        assert_eq!(rate(ms, tokens).map(|r| r.to_string()), Some(format!("{double:.0}")));
    }
}

#[test]
fn trim_drops_stale_samples_normal() {
    let mut samples = std::collections::VecDeque::new();
    for (t, tok) in [(0u64, 0u64), (1000, 50), (2000, 100), (10_000, 500)] {
        samples.push_back((Duration::from_millis(t), tok));
    }
    trim_token_samples(&mut samples);
    assert!(samples.len() >= 2, "must keep ≥2 samples: {:?}", samples);
    assert_eq!(
        *samples.back().unwrap(),
        (Duration::from_millis(10_000), 500)
    );
}

#[test]
fn windowed_rate_single_sample_returns_none_robust() {
    let mut samples = std::collections::VecDeque::new();
    samples.push_back((Duration::from_millis(0), 0u64));
    assert!(windowed_token_rate(&samples).is_none());
}

#[test]
fn windowed_rate_below_min_span_returns_none_robust() {
    let mut samples = std::collections::VecDeque::new();
    samples.push_back((Duration::from_millis(0), 0u64));
    samples.push_back((Duration::from_millis(500), 100u64));
    assert!(windowed_token_rate(&samples).is_none());
}

#[test]
fn windowed_rate_empty_returns_none_robust() {
    let samples: std::collections::VecDeque<(Duration, u64)> =
        std::collections::VecDeque::new();
    assert!(windowed_token_rate(&samples).is_none());
}

#[test]
fn format_finished_is_just_elapsed_normal() {
    assert_eq!(format_finished(Duration::from_secs(310)), "5m10s");
    assert_eq!(format_finished(Duration::from_secs(3)), "3s");
}

#[test]
fn format_compact_status_includes_pieces_normal() {
    let s = format_compact_status(0, Duration::from_secs(15), 412_000, 4_800);
    assert!(s.contains("Compacting"), "verb missing: {s}");
    assert!(s.contains("15s"), "elapsed missing: {s}");
    assert!(s.contains("412k tokens"), "pre-token chip missing: {s}");
    assert!(
        s.contains("↓ 1.2k tokens"),
        "output token chip missing: {s}"
    );
}

#[test]
fn format_compact_status_omits_empty_chips_robust() {
    let s = format_compact_status(0, Duration::from_secs(2), 0, 0);
    assert!(s.contains("Compacting"), "verb missing: {s}");
    assert!(s.contains("2s"), "elapsed missing: {s}");
    assert!(!s.contains("0 tokens"), "shouldn't show 0-token chip: {s}");
    assert!(!s.contains("↓"), "shouldn't show empty output chip: {s}");
}

#[test]
fn motion_is_reduced_on_request() {
    let setting = |s: &str| reduced_motion(&Some(s.to_owned()));
    assert!(setting("1") && setting("true") && setting("yes"));
    assert!(!setting("0") && !setting("TRUE") && !reduced_motion(&None));
}

#[test]
fn the_spinner_follows_the_turn() {
    let t0 = Instant::at_nanos(0);
    let mut spinner = SpinnerState::new(t0);
    let mut signals = EngineSignals {
        turn_started: true,
        is_streaming: true,
        thinking_started: true,
        thinking_ended: false,
        compacting: false,
        network_recovery: false,
        response_bytes: 0,
        tools_pending: false,
    };
    let t1 = t0.checked_add(Duration::from_secs(10)).unwrap();
    advance_spinner(&mut spinner, signals, t1);
    assert_eq!(spinner.phase, SpinnerPhase::Thinking);
    assert_eq!((spinner.entered_at, spinner.thinking_first_seen_at), (t1, Some(t1)));
    signals.compacting = true;
    let t2 = t1.checked_add(Duration::from_millis(80)).unwrap();
    advance_spinner(&mut spinner, signals, t2);
    assert_eq!((spinner.phase, spinner.entered_at), (SpinnerPhase::Compacting, t2));
    signals.compacting = false;
    signals.turn_started = false;
    signals.is_streaming = false;
    advance_spinner(&mut spinner, signals, t2);
    assert!(spinner.thinking_first_seen_at.is_none());
}
