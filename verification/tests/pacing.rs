use std::collections::VecDeque;

use jfc::stream_pacer::{display_line_count, take_first_lines, StreamPacer};
use jfc::tick::{pace_stream, sample_tokens, StreamTail};
use jfc::time::{Duration, Instant};

fn later(t: Instant, ms: u64) -> Instant {
    t.checked_add(Duration::from_millis(ms)).unwrap()
}

#[test]
fn display_line_count_counts_segments_incl_partial() {
    assert_eq!(display_line_count(""), 0);
    assert_eq!(display_line_count("Hello!"), 1);
    assert_eq!(display_line_count("a\nb\nc"), 3);
    assert_eq!(display_line_count("a\nb\n"), 3);
}

#[test]
fn take_first_lines_slices_on_segment_boundaries() {
    assert_eq!(take_first_lines("a\nb\nc", 0), "");
    assert_eq!(take_first_lines("a\nb\nc", 1), "a");
    assert_eq!(take_first_lines("a\nb\nc", 2), "a\nb");
    assert_eq!(take_first_lines("a\nb\nc", 3), "a\nb\nc");
    assert_eq!(take_first_lines("a\nb\nc", 9), "a\nb\nc");
    assert_eq!(take_first_lines("Hello!", 1), "Hello!");
}

#[test]
fn reveals_one_line_per_tick_when_smooth() {
    let mut pacer = StreamPacer::default();
    let t0 = Instant::at_nanos(0);
    assert_eq!(pacer.advance(3, t0), 1);
    assert_eq!(pacer.advance(3, later(t0, 16)), 2);
    assert_eq!(pacer.advance(3, later(t0, 32)), 3);
    assert!(!pacer.is_catching_up(3));
}

#[test]
fn batches_under_depth_pressure() {
    let mut pacer = StreamPacer::default();
    let t0 = Instant::at_nanos(0);
    let revealed = pacer.advance(20, t0);
    assert_eq!(revealed, 20, "catch-up should drain the burst");
    assert!(!pacer.is_catching_up(20));
}

#[test]
fn reset_clears_revealed() {
    let mut pacer = StreamPacer::default();
    let t0 = Instant::at_nanos(0);
    pacer.advance(5, t0);
    pacer.reset();
    assert_eq!(pacer.revealed(), 0);
    assert_eq!(pacer.advance(5, later(t0, 16)), 1);
}

#[test]
fn reveal_all_flushes_on_finish() {
    let mut pacer = StreamPacer::default();
    let t0 = Instant::at_nanos(0);
    pacer.advance(10, t0);
    pacer.reveal_all(10);
    assert_eq!(pacer.revealed(), 10);
    assert!(!pacer.is_catching_up(10));
}

#[test]
fn revealed_never_exceeds_total() {
    let mut pacer = StreamPacer::default();
    let t0 = Instant::at_nanos(0);
    let revealed = pacer.advance(2, t0);
    assert!(revealed <= 2);
}

#[test]
fn age_pressure_escalates_to_catch_up() {
    let mut pacer = StreamPacer::default();
    let t0 = Instant::at_nanos(0);
    assert_eq!(pacer.advance(2, t0), 1);
    let revealed = pacer.advance(2, later(t0, 200));
    assert_eq!(revealed, 2, "aged backlog should catch up");
}

#[test]
fn every_tick_with_waiting_lines_shows_more() {
    let mut pacer = StreamPacer::default();
    let mut now = Instant::at_nanos(0);
    let mut shown = 0;
    for total in [1usize, 4, 4, 9, 30, 31, 31] {
        let next = pacer.advance(total, now);
        assert!(next <= total);
        assert!(shown >= total || next > shown);
        shown = next;
        now = later(now, 16);
    }
}

#[test]
fn all_lines_show_the_whole_text() {
    let text = "one\ntwo\nthr";
    assert_eq!(take_first_lines(text, display_line_count(text)), text);
}

#[test]
fn some_lines_end_before_the_line_feed() {
    let text = "one\ntwo\nthr";
    for n in 1..display_line_count(text) {
        let shown = take_first_lines(text, n);
        assert!(text.starts_with(shown) && shown != text);
        assert_eq!(text.as_bytes()[shown.len()], b'\n');
        assert_eq!(shown.matches('\n').count(), n - 1);
    }
}

#[test]
fn received_text_shows_at_once() {
    let mut pacer = StreamPacer::default();
    let mut key = None;
    let tail = |part_count, text: &str| StreamTail { index: Some(4), part_count, lines: display_line_count(text) };
    assert!(!pace_stream(&mut pacer, &mut key, true, tail(1, "a\nb\nc")));
    assert_eq!((pacer.revealed, key), (3, Some((4, 1))));
    assert!(!pace_stream(&mut pacer, &mut key, true, tail(1, "a\nb\nc\nd")));
    assert_eq!(pacer.revealed, 4);
    assert!(!pace_stream(&mut pacer, &mut key, true, tail(2, "e")));
    assert_eq!((pacer.revealed, key), (1, Some((4, 2))));
    assert!(!pace_stream(&mut pacer, &mut key, false, tail(2, "e")));
    assert_eq!((pacer.revealed, key), (0, None));
}

#[test]
fn a_smaller_count_starts_the_samples_over() {
    let mut samples = VecDeque::new();
    sample_tokens(&mut samples, Duration::from_secs(1), true, 40, 7);
    sample_tokens(&mut samples, Duration::from_secs(2), true, 50, 7);
    assert_eq!(samples.iter().map(|s| s.1).collect::<Vec<u64>>(), vec![40, 50]);
    sample_tokens(&mut samples, Duration::from_secs(3), false, 50, 7);
    assert_eq!(samples.iter().map(|s| s.1).collect::<Vec<u64>>(), vec![7]);
}
