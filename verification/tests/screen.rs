use std::collections::VecDeque;

use jfc::activity::TurnTools;
use jfc::background::{AgentProgress, AgentStatus, BackgroundTask, Fleet, WorkflowProgress};
use jfc::bytes_len::cut_bytes;
use jfc::fitting::{
    align_left, align_right, cell_width, char_cell_width, fmt_number, truncate_cells, truncate_str,
    wrap_text_to_width,
};
use jfc::numbers::parse_number;
use jfc::order::text_is_before;
use jfc::paths::{join_path, starts_with_path};
use jfc::pinned::{recently_done, still_open, tasks_pinned_row};
use jfc::sidebar::{
    clamp_scroll, context_breakdown_rows, context_row_total, tokens_from_chars, transcript_breakdown, PartSize,
};
use jfc::slicing::{contains, ends_with, lines, split_char, split_words, starts_with, trim};
use jfc::spinner::SpinnerPhase;
use jfc::spinner_row::{
    spinner_row, working_activity_subject, Compacting, SpinnerView, WorkCounts,
};
use jfc::styled::Line;
use jfc::tabs::{common_word_prefix, subagent_footer};
use jfc::task_detail::{render_task_detail, task_model_badge};
use jfc::task_view::{
    away_recap_band, messages, messages_task_view, modal_overlay_locks_scroll, render_workflow_detail, scroll_to,
    should_snap_to_bottom, task_hint, task_view_title, Overlays, ScrollState, TaskBody,
};
use jfc::tasks::{Task, TaskStatus};
use jfc::text_map::TextMap;
use jfc::time::{Duration, Instant};
use jfc::transcript::{ChatMessage, TaskLifecycle};
use jfc::welcome::{
    context_window_label, effort_header_label, empty_session_lines, pretty_model_label, provider_label,
    SessionHeader,
};
use jfc::layout::Rect;

fn at(secs: u64) -> Instant {
    Instant::at_nanos(0).checked_add(Duration::from_secs(secs)).unwrap()
}

fn shown(line: &Line) -> String {
    line.spans.iter().map(|s| s.text.as_str()).collect()
}

fn all_shown(lines: &[Line]) -> String {
    lines.iter().map(|l| shown(l) + "\n").collect()
}

fn task(id: &str, subject: &str, status: TaskStatus) -> Task {
    Task {
        id: id.to_owned(),
        subject: subject.to_owned(),
        description: String::new(),
        status,
        active_form: None,
        owner: None,
        parent_id: None,
        blocked_by: Vec::new(),
        model: None,
    }
}

fn agent(id: &str, description: &str, status: TaskLifecycle) -> BackgroundTask {
    BackgroundTask {
        task_id: id.to_owned(),
        description: description.to_owned(),
        status,
        started_at: at(0),
        completed_at: None,
        summary: None,
        error: None,
        last_tool: None,
        last_tool_info: None,
        recent_activities: Vec::new(),
        messages: Vec::new(),
        chat_messages: Vec::new(),
        tool_use_count: 0,
        latest_input_tokens: 0,
        latest_cache_read_tokens: 0,
        latest_cache_write_tokens: 0,
        cumulative_output_tokens: 0,
        model_used: None,
        parent_task_id: None,
        workflow_progress: None,
        last_activity_at: at(0),
    }
}

// ── text ────────────────────────────────────────────────────────────────

#[test]
fn columns_are_not_characters() {
    assert_eq!(cell_width("abc"), 3);
    assert_eq!(cell_width("日本"), 4);
    assert_eq!(cell_width("e\u{301}"), 1);
    assert_eq!(char_cell_width('a'), 1);
    assert_eq!(char_cell_width('日'), 2);
    assert_eq!(align_right("ab", 4), "  ab");
    assert_eq!(align_left("ab", 4), "ab  ");
    assert_eq!(fmt_number(1_234_567), "1,234,567");
    assert_eq!(truncate_str("abcdef", 4).chars().count(), 4);
    assert!(cell_width(&truncate_cells("日本語日本語", 5)) <= 5);
    assert_eq!(wrap_text_to_width("one two three", 7), vec!["one two", "three"]);
}

#[test]
fn texts_are_taken_apart() {
    assert_eq!(trim("\u{2003} a\t"), "a");
    assert_eq!(split_words(" a  b\u{a0}c "), vec!["a", "b", "c"]);
    assert_eq!(lines("a\r\nb\n"), vec!["a", "b"]);
    assert_eq!(split_char("a//b", '/'), vec!["a", "", "b"]);
    assert!(contains("hello", "ell") && !contains("hello", "lo!"));
    assert!(starts_with("hello", "he") && ends_with("hello", "lo"));
    assert_eq!(parse_number("+42", 100), Some(42));
    assert_eq!(parse_number("101", 100), None);
    assert_eq!(parse_number("-1", 100), None);
    assert_eq!(cut_bytes("aé", 2), "a");
    assert!(text_is_before("B", "a") && !text_is_before("a", "a"));
    assert_eq!(join_path("/a", "b"), "/a/b");
    assert_eq!(join_path("/a", "/b"), "/b");
    assert!(starts_with_path("/a//b", "/a/b") && !starts_with_path("/ab", "/a"));
}

// ── tasks ───────────────────────────────────────────────────────────────

#[test]
fn pinned_tasks_fit_their_rows() {
    let tasks: Vec<Task> =
        (0..6).map(|i| task(&i.to_string(), &format!("task {i}"), TaskStatus::Pending)).collect();
    let done: TextMap<Instant> = TextMap::new();
    let rows = tasks_pinned_row(&tasks, &done, &None, 80, 4, at(0));
    assert_eq!(rows.len(), 4);
    assert!(shown(&rows[0]).contains("6 tasks"));
    assert!(shown(&rows[3]).contains("+4 more"), "{}", all_shown(&rows));
    assert_eq!(still_open(&tasks), 6);
    let mut finished = tasks;
    finished[0].status = TaskStatus::Completed;
    let mut done: TextMap<Instant> = TextMap::new();
    done.insert("0".to_owned(), at(0));
    assert_eq!(recently_done(&finished, &done, at(29)), 1);
    assert_eq!(recently_done(&finished, &done, at(31)), 0);
}

#[test]
fn task_details_name_the_model() {
    let mut t = task("1", "build", TaskStatus::InProgress);
    assert_eq!(task_model_badge(&t), None);
    t.model = Some("acme/big".to_owned());
    assert!(task_model_badge(&t).unwrap().contains("big"));
    t.description = "the whole thing".to_owned();
    let rows = all_shown(&render_task_detail(&t, &Vec::new(), 80, at(0)));
    assert!(rows.contains("build") && rows.contains("the whole thing"), "{rows}");
}

// ── the transcript ──────────────────────────────────────────────────────

fn no_overlays() -> Overlays {
    Overlays {
        palette: false,
        model_picker: false,
        session_picker: false,
        task_panel: false,
        expanded_view: false,
        help: false,
        diagnostic_panel: false,
        has_diagnostics: false,
        approval: false,
        question: false,
        elicitation: false,
        rewrite_proposal: false,
    }
}

#[test]
fn the_transcript_follows_unless_held() {
    let mut s = ScrollState { follow_bottom: true, scroll_offset: 3, overlays: no_overlays() };
    assert!(should_snap_to_bottom(&s, 10, 100));
    assert_eq!(scroll_to(&s, 10, 100), 90);
    s.overlays.approval = true;
    assert!(modal_overlay_locks_scroll(&s.overlays));
    assert_eq!(scroll_to(&s, 10, 100), 3);
    s.overlays = no_overlays();
    s.overlays.diagnostic_panel = true;
    assert!(!modal_overlay_locks_scroll(&s.overlays), "an empty panel is not shown");
    s.follow_bottom = false;
    s.scroll_offset = 95;
    assert_eq!(scroll_to(&s, 10, 100), 90);
    let plan = messages(&s, Rect::new(0, 0, 42, 10), 100, 5, 0);
    assert_eq!((plan.inner_width, plan.visible, plan.scroll_offset), (40, 10, 90));
    assert!(!plan.empty_session);
}

#[test]
fn the_recap_is_a_band() {
    let rows = away_recap_band("one\ntwo", 10);
    let text = all_shown(&rows);
    assert!(text.contains("one") && text.contains("two"), "{text}");
    assert!(away_recap_band("one\ntwo\nthree", 2).len() <= 2);
}

#[test]
fn agents_have_a_view_of_their_own() {
    let mut bt = agent("agent-1", "look around", TaskLifecycle::Running);
    assert!(task_view_title(&vec![agent("agent-1", "look around", TaskLifecycle::Running)], "agent-1").contains("look around"));
    assert!(task_hint(Some(TaskLifecycle::Running), 0).is_some());
    bt.workflow_progress = Some(WorkflowProgress {
        name: "release".to_owned(),
        status: "running".to_owned(),
        cache_hits: 0,
        started_at: at(0),
        current_phase: Some("build".to_owned()),
        agents: vec![AgentProgress {
            index: 0,
            label: "compile".to_owned(),
            phase: Some("build".to_owned()),
            status: AgentStatus::Running,
        }],
        logs: vec!["started".to_owned()],
    });
    let (rows, top) = render_workflow_detail(bt.workflow_progress.as_ref().unwrap(), 80, 0, 99, 5, at(9));
    assert!(all_shown(&rows).contains("compile"));
    assert_eq!(top, rows.len().saturating_sub(5));
    let s = ScrollState { follow_bottom: false, scroll_offset: 0, overlays: no_overlays() };
    let area = Rect::new(0, 2, 80, 11);
    let view = messages_task_view(&vec![bt], "agent-1", Vec::new(), 0, &s, area, 0, at(9));
    assert_eq!(view.inner, Rect::new(0, 3, 80, 10));
    assert!(view.scrolled.is_none());
    assert!(matches!(&view.body, TaskBody::Workflow { lines, .. } if all_shown(lines).contains("compile")));
    let mut talking = agent("agent-1", "look around", TaskLifecycle::Idle);
    talking.chat_messages.push(ChatMessage::user("hi".to_owned()));
    let view = messages_task_view(&vec![talking], "agent-1", Vec::new(), 30, &s, area, 0, at(9));
    assert_eq!(view.scrolled.map(|at| (at.total_lines, at.viewport_height)), Some((30, 10)));
    match view.body {
        TaskBody::Messages { hint: Some((line, at)) } => {
            assert_eq!(shown(&line), "⏸  idle — waiting for next message");
            assert_eq!(at, Rect::new(0, 12, 80, 1));
        }
        _ => unreachable!(),
    }
    let quiet = agent("agent-1", "look around", TaskLifecycle::Running);
    let view = messages_task_view(&vec![quiet], "agent-1", Vec::new(), 0, &s, area, 0, at(9));
    assert!(matches!(&view.body, TaskBody::Log { lines } if all_shown(lines).contains("Receiving output…")));
    let view = messages_task_view(&Vec::new(), "agent-1", Vec::new(), 0, &s, area, 0, at(9));
    assert_eq!(view.title, "task agent-1 (not found)");
    assert!(matches!(&view.body, TaskBody::Log { lines } if all_shown(lines).contains("No messages yet")));
    assert_eq!(view.scrolled.unwrap().total_lines, 0);
}

// ── the spinner ─────────────────────────────────────────────────────────

fn counts() -> WorkCounts {
    WorkCounts {
        pending_calls: 0,
        batches: 0,
        open_results: 0,
        eager_dispatches: 0,
        alive_agents: 0,
        queued_prompts: 0,
        is_streaming: false,
        response_bytes: 0,
        turn_started: true,
    }
}

fn spinner_view() -> SpinnerView {
    SpinnerView {
        frame: 0,
        phase: SpinnerPhase::Responding,
        reduced_motion: true,
        compacting: None,
        recovery: None,
        turn_started_at: Some(at(0)),
        streaming_started_at: Some(at(0)),
        lifecycle: None,
        thinking_tokens: 0,
        last_token_at: None,
        thinking_started_at: None,
        thinking_ended_at: None,
        rate_samples: VecDeque::new(),
        counts: counts(),
        tools: TurnTools {
            pending_tool_calls: Vec::new(),
            active_tool_calls: Vec::new(),
            messages: Vec::new(),
            in_progress_ids: Vec::new(),
            shells: TextMap::new(),
        },
        tasks: vec![task("1", "ship it", TaskStatus::InProgress)],
        tip: None,
    }
}

#[test]
fn the_spinner_tells_what_is_going_on() {
    let rows = all_shown(&spinner_row(&spinner_view(), 100, 2, at(65)));
    assert!(rows.contains("1m05s"), "{rows}");
    assert!(rows.contains("ship it"), "{rows}");
    let mut compacting = spinner_view();
    compacting.compacting = Some(Compacting { started_at: at(60), pre_tokens: 1_000, output_chars: 0 });
    let rows = all_shown(&spinner_row(&compacting, 100, 2, at(65)));
    assert!(rows.contains("5s") && !rows.contains("1m05s"), "{rows}");
    assert!(spinner_row(&spinner_view(), 100, 0, at(65)).is_empty());
    let mut waiting = counts();
    waiting.queued_prompts = 2;
    assert_ne!(working_activity_subject(&waiting), working_activity_subject(&counts()));
}

// ── tabs, sidebar, welcome ──────────────────────────────────────────────

#[test]
fn tabs_drop_what_they_share() {
    let items = |v: &[&str]| -> Vec<String> { v.iter().map(|s| s.to_string()).collect() };
    assert_eq!(common_word_prefix(&items(&["fix the parser", "fix the lexer"])), "fix the ");
    assert_eq!(common_word_prefix(&items(&["one", "two"])), "");
    let fleet = Fleet {
        tasks: vec![
            agent("a", "fix the parser", TaskLifecycle::Running),
            agent("b", "fix the lexer", TaskLifecycle::Running),
        ],
        last_active: None,
        viewing: None,
    };
    let row = shown(&subagent_footer(&fleet, 0, 100, at(0)));
    assert!(row.contains("parser") && row.contains("lexer"), "{row}");
    assert!(cell_width(&shown(&subagent_footer(&fleet, 0, 20, at(0)))) <= 20);
}

#[test]
fn the_context_is_broken_down() {
    assert_eq!(tokens_from_chars(0), 0);
    assert_eq!(tokens_from_chars(8), 2);
    let parts = vec![vec![PartSize::Other(40), PartSize::Tool { input_len: 20, output_len: 20 }]];
    let breakdown = transcript_breakdown(&parts);
    assert!(breakdown.conversation_tokens > 0 && breakdown.tool_call_tokens > 0);
    let shares = context_breakdown_rows(&parts, None, None);
    assert!(context_row_total(&shares, 5) >= 5);
    assert_eq!(clamp_scroll(10, 4, 99), 6);
    assert_eq!(clamp_scroll(3, 4, 99), 0);
}

#[test]
fn models_and_providers_have_names() {
    assert_eq!(pretty_model_label("acme-opus-4-6", "acme-"), "Opus 4.6");
    assert_eq!(pretty_model_label("sonnet-4-5-20250101", "acme-").starts_with("Sonnet 4.5"), true);
    assert_eq!(pretty_model_label("gpt-5", "acme-"), "gpt-5");
    assert_eq!(provider_label("openai"), "OpenAI");
    assert_eq!(provider_label("mine"), "mine");
    assert_eq!(context_window_label(200_000), "200k context");
    assert!(!effort_header_label(&None).is_empty());
    let header = SessionHeader {
        version: "1.2.3".to_owned(),
        model: "acme-opus-4-6".to_owned(),
        maker: "acme-".to_owned(),
        context_window: 200_000,
        effort_badge: None,
        provider: "openai".to_owned(),
        cwd: "/work".to_owned(),
        setup_issues: 1,
    };
    let rows = all_shown(&empty_session_lines(&header, 100));
    assert!(rows.contains("v1.2.3") && rows.contains("Opus 4.6") && rows.contains("/work"), "{rows}");
}
