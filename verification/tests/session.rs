use std::collections::VecDeque;

use jfc::away::AwayState;
use jfc::clicks::session_opened;
use jfc::dashboard::{build_snapshot, ModelUsageRow, ProfilePhase, SessionFacts};
use jfc::event_loop::{
    apply_engine_effect, wants_streaming_cursor, ActivitySignals, EngineEffect, ViewState,
};
use jfc::json::Json;
use jfc::orchestrator::{
    classify_open_error, error_looks_stream_stale_or_idle, opened_input, stream_open_timeout, stream_response,
    stream_to_nonstreaming_fallback_enabled, CompletionUsage, LifecyclePhase, OpenFailure, OpenOutcome, Prepared,
    RequestContext, StopReason, StreamAction, StreamInput, StreamState,
};
use jfc::provider_events::{handle_provider_event, ProviderEvent, ProviderState};
use jfc::queue::{drain_queued_prompts, route_text, QueuedPrompt, TurnState};
use jfc::session_history::{
    extract_prompts_from_session_json, is_current_session, messages_from_export, newest_first, PriorPrompts,
    SessionFile,
};
use jfc::speculation::{
    accepted_path, active_overlay, clear_overlay, estimate_confidence, install_overlay, is_offer,
    overlay_path_for, predict_next_prompt, MessageRole, MessageSummary, OverlaySession, OverlaySlot,
    PromptPredictor, SpeculationSession, SpeculationStats, SpeculationStatus,
};
use jfc::startup::{
    add_directories, auto_nudge_message, choose_continued, foreign_session_notice, is_switched_on, plan_startup, remote_control_port,
    restored_model, session_in_use, start_session, startup_permission_mode, startup_title_sequence, submit_initial_prompt,
    LoadedSession, RemoteControlConfig, StartupFacts, StartupSession,
};
use jfc::mouse::Scroller;
use jfc::spinner::{SpinnerPhase, SpinnerState};
use jfc::status::PermissionMode;
use jfc::stream_pacer::StreamPacer;
use jfc::terminal::{branch_from_head, terminal_title, title_update, TitleState};
use jfc::text_map::TextMap;
use jfc::tick::{
    arm_compaction, auto_permission, due, handle_tick, idle_drain_due, permission_feedback, permission_notice,
    welcome_back, CompactArm, IdleSignals, TickClocks, TickInputs, TickState,
};
use jfc::time::{Duration, Instant};
use jfc::timeline::{App, FinishedRequest, ModelTotals, RequestFacts};
use jfc::transcript::{ChatMessage, MessagePart, Role};
use jfc::voice::{handle_voice_event, inject_voice_transcript, Delivery, VoiceAction, VoiceEvent, VoiceView};
use jfc::status::VoiceState;

fn at(secs: u64) -> Instant {
    Instant::at_nanos(0).checked_add(Duration::from_secs(secs)).unwrap()
}

fn text(s: &str) -> Json {
    Json::Text(s.to_owned())
}

fn object(members: Vec<(&str, Json)>) -> Json {
    Json::Object(members.into_iter().map(|(k, v)| (k.to_owned(), v)).collect())
}

// ── asking the model ────────────────────────────────────────────────────

fn context() -> RequestContext {
    RequestContext {
        provider: "acme".to_owned(),
        model: "big".to_owned(),
        message_count: 3,
        fallback_enabled: true,
    }
}

fn prepared() -> Prepared {
    Prepared {
        system_prompt_tokens: 100,
        recalled_memory_chars: 0,
        advertised_tool_count: 2,
        action_expected: false,
    }
}

fn step(state: StreamState, input: StreamInput) -> (StreamState, Vec<StreamAction>) {
    stream_response(&context(), state, input)
}

fn opening(thinking: bool) -> StreamState {
    StreamState::Opening { prepared: prepared(), thinking }
}

#[test]
fn a_request_runs_to_its_end() {
    let (state, actions) = step(StreamState::New, StreamInput::Begin);
    assert!(matches!(
        &actions[0],
        StreamAction::Lifecycle(LifecyclePhase::PreparingContext, d) if d == "3 messages"
    ));
    assert!(matches!(actions[1], StreamAction::Prepare));
    let (state, actions) = step(state, StreamInput::Prepared(prepared()));
    assert_eq!(actions.len(), 3);
    let (state, actions) = step(state, StreamInput::Announced(true));
    assert!(matches!(
        &actions[1],
        StreamAction::Lifecycle(LifecyclePhase::WaitingForFirstByte, d) if d == "acme · big"
    ));
    assert!(matches!(actions[2], StreamAction::Open { thinking: true }));
    let (state, actions) = step(state, StreamInput::Opened);
    assert!(matches!(actions[1], StreamAction::Drain));
    let (state, actions) = step(state, StreamInput::Drained(StopReason::EndTurn));
    assert!(matches!(&actions[0], StreamAction::AfterHook(r) if r == "EndTurn"));
    assert!(matches!(actions[1], StreamAction::Done(StopReason::EndTurn)));
    assert!(matches!(state, StreamState::Finished));
    assert!(step(state, StreamInput::Begin).1.is_empty());
}

#[test]
fn nobody_listening_ends_a_request() {
    let (state, actions) = step(StreamState::Announcing(prepared()), StreamInput::Announced(false));
    assert!(matches!(state, StreamState::Finished) && actions.is_empty());
}

#[test]
fn thinking_is_dropped_once() {
    let refusal = "Adaptive THINKING is not supported";
    let (state, actions) = step(opening(true), StreamInput::OpenFailed(refusal.to_owned()));
    assert!(matches!(state, StreamState::Opening { thinking: false, .. }));
    assert!(matches!(actions[1], StreamAction::Open { thinking: false }));
    let (state, actions) = step(state, StreamInput::OpenFailed(refusal.to_owned()));
    assert!(matches!(state, StreamState::Finished));
    assert!(matches!(&actions[0], StreamAction::Error(e) if e == refusal));
}

#[test]
fn long_prompts_ask_for_compaction() {
    let (_, actions) = step(opening(true), StreamInput::OpenFailed("Prompt is too long".to_owned()));
    assert!(matches!(&actions[0], StreamAction::Error(e) if e == "auto-compact: Prompt is too long"));
    assert_eq!(classify_open_error("exceeds MAX_TOKENS"), OpenFailure::PromptTooLong);
    assert_eq!(classify_open_error("ÀCCESS DENIED"), OpenFailure::Other);
}

#[test]
fn silent_streams_fall_back_to_a_completion() {
    let broke = |committed| StreamInput::BrokeOff {
        message: "Connection RESET by peer".to_owned(),
        committed_output: committed,
    };
    let (state, actions) = step(StreamState::Draining(prepared()), broke(false));
    assert!(matches!(actions[1], StreamAction::Complete { thinking: true }));
    let usage = CompletionUsage {
        input_tokens: 1,
        output_tokens: (1 << 32) + 2,
        cache_read_tokens: 3,
        cache_write_tokens: 4,
    };
    let (state, actions) = step(state, StreamInput::Completed { content: "hi".to_owned(), usage });
    assert!(matches!(state, StreamState::Finished));
    assert!(matches!(&actions[0], StreamAction::Chunk(t) if t == "hi"));
    assert!(matches!(actions[1], StreamAction::Usage { input: 1, output: 2, cache_read: 3, cache_write: 4 }));
    assert!(matches!(actions[3], StreamAction::Done(StopReason::EndTurn)));
    let (_, actions) = step(StreamState::Draining(prepared()), broke(true));
    assert!(matches!(&actions[0], StreamAction::Error(e) if e == "Connection RESET by peer"));
    let (state, _) = step(StreamState::Draining(prepared()), broke(false));
    let (_, actions) = step(state, StreamInput::CompletionFailed);
    assert!(matches!(&actions[0], StreamAction::Error(e) if e == "Connection RESET by peer"));
    let (_, actions) =
        step(StreamState::Draining(prepared()), StreamInput::Cancelled("stopped".to_owned()));
    assert!(matches!(&actions[0], StreamAction::Error(e) if e == "stopped"));
    assert!(error_looks_stream_stale_or_idle("Stream timed out"));
    assert!(!error_looks_stream_stale_or_idle("401 unauthorized"));
}

#[test]
fn an_owed_tool_is_not_replaced_by_words() {
    let mut owed = prepared();
    owed.action_expected = true;
    let (state, _) = step(
        StreamState::Draining(owed),
        StreamInput::BrokeOff { message: "idle".to_owned(), committed_output: false },
    );
    assert!(matches!(state, StreamState::Finished));
}

#[test]
fn timeouts_and_fallbacks_can_be_set() {
    assert_eq!(stream_open_timeout(&None), Some(Duration::from_secs(45)));
    assert_eq!(stream_open_timeout(&Some("7".to_owned())), Some(Duration::from_secs(7)));
    assert_eq!(stream_open_timeout(&Some("0".to_owned())), None);
    assert_eq!(stream_open_timeout(&Some("off".to_owned())), None);
    assert_eq!(stream_open_timeout(&Some("soon".to_owned())), None);
    assert!(stream_to_nonstreaming_fallback_enabled(&None, &None));
    assert!(!stream_to_nonstreaming_fallback_enabled(&Some("1".to_owned()), &Some("1".to_owned())));
    assert!(!stream_to_nonstreaming_fallback_enabled(&None, &Some("off".to_owned())));
}

#[test]
fn a_late_stream_is_made_up_for_and_a_cancelled_one_is_not() {
    let late = match opened_input(OpenOutcome::TimedOut(Duration::from_secs(45))) {
        StreamInput::OpenFailed(e) => e,
        _ => unreachable!(),
    };
    assert_eq!(late, "Stream open timed out after 45s before first provider response");
    assert!(error_looks_stream_stale_or_idle(&late));
    assert_eq!(classify_open_error(&late), OpenFailure::Other);
    let cancelled = match opened_input(OpenOutcome::Cancelled) {
        StreamInput::OpenFailed(e) => e,
        _ => unreachable!(),
    };
    assert_eq!(cancelled, "Stream cancelled before connection opened");
    assert!(!error_looks_stream_stale_or_idle(&cancelled));
    assert!(matches!(opened_input(OpenOutcome::Opened), StreamInput::Opened));
    assert!(matches!(opened_input(OpenOutcome::Failed("no".to_owned())), StreamInput::OpenFailed(e) if e == "no"));
}

// ── speculation ─────────────────────────────────────────────────────────

fn overlay() -> OverlaySlot {
    let mut slot = OverlaySlot { session: None };
    install_overlay(
        &mut slot,
        OverlaySession {
            id: "s".to_owned(),
            overlay_root: "/tmp/overlay".to_owned(),
            real_cwd: "/work".to_owned(),
        },
    );
    slot
}

#[test]
fn writes_go_to_the_overlay_and_come_back() {
    let mut slot = overlay();
    let there = overlay_path_for(&slot, "src//a.rs").unwrap();
    assert_eq!(there, "/tmp/overlay/src/a.rs");
    assert_eq!(accepted_path(&active_overlay(&slot).unwrap(), &there), Some("/work/src/a.rs".to_owned()));
    assert_eq!(accepted_path(&active_overlay(&slot).unwrap(), "/etc/passwd"), None);
    assert_eq!(overlay_path_for(&slot, "/elsewhere/b.rs"), None);
    assert_eq!(overlay_path_for(&slot, "../x"), None);
    assert_eq!(overlay_path_for(&slot, "src/../../x"), None);
    assert_eq!(overlay_path_for(&slot, "../work/x"), None);
    assert_eq!(overlay_path_for(&slot, "/work/../x"), None);
    assert!(overlay_path_for(&slot, "src/../x").is_some());
    assert!(overlay_path_for(&slot, "./src/./x").is_some());
    assert_eq!(clear_overlay(&mut slot).unwrap().id, "s");
    assert_eq!(overlay_path_for(&slot, "src/a.rs"), None);
}

#[test]
fn speculations_are_counted() {
    let mut session = SpeculationSession::new("s".to_owned(), "/tmp/o".to_owned(), 12, at(0));
    assert!(SpeculationSession::is_tool_allowed("Read"));
    assert!(SpeculationSession::is_write_tool("Edit"));
    assert!(!SpeculationSession::is_tool_allowed("Bash"));
    session.record_write("/a/b".to_owned());
    session.record_write("/a//b".to_owned());
    session.pause("shell".to_owned());
    assert!(matches!(&session.status, SpeculationStatus::Paused { reason } if reason == "shell"));
    let result = session.accept(at(2));
    assert!(result.accepted);
    assert_eq!((result.duration_ms, result.files_written), (2000, 1));
    let mut stats = SpeculationStats {
        total_speculations: 0,
        accepted_count: 0,
        discarded_count: 0,
        time_saved_ms: 0,
    };
    stats.record(&result);
    assert_eq!((stats.total_speculations, stats.accepted_count, stats.time_saved_ms), (1, 1, 2000));
}

fn said(role: MessageRole, what: &str, tools: &[&str]) -> MessageSummary {
    MessageSummary {
        role,
        text: what.to_owned(),
        tools_used: tools.iter().map(|t| t.to_string()).collect(),
    }
}

#[test]
fn the_next_prompt_is_guessed() {
    let offer = [said(MessageRole::Assistant, "Should I continue? ", &[])];
    assert_eq!(predict_next_prompt(&offer), Some("yes, go ahead".to_owned()));
    let wrote = [said(MessageRole::Assistant, "ok", &["Edit"])];
    assert_eq!(predict_next_prompt(&wrote), Some("run the tests to verify the changes work".to_owned()));
    let failed = [said(MessageRole::Assistant, "it failed", &[])];
    assert_eq!(predict_next_prompt(&failed), Some("fix that error".to_owned()));
    assert_eq!(predict_next_prompt(&[said(MessageRole::Assistant, "Why?", &[])]), None);
    assert_eq!(predict_next_prompt(&[said(MessageRole::User, "hi", &[])]), None);
    assert!(is_offer("shall i"));
    assert!(!is_offer("SHALL I"));
    assert_eq!(estimate_confidence(&offer), 3);
    assert_eq!(estimate_confidence(&wrote), 5);
    let mut predictor = PromptPredictor::new();
    predictor.on_assistant_response(at(0));
    assert_eq!(predictor.should_speculate(Duration::from_secs(1), &wrote, at(1)), None);
    assert!(predictor.should_speculate(Duration::from_secs(3), &wrote, at(3)).is_some());
    assert_eq!(predictor.should_speculate(Duration::from_secs(4), &wrote, at(4)), None);
    assert!(predictor.take_prediction().is_some());
    assert!(predictor.take_prediction().is_none());
}

// ── earlier sessions ────────────────────────────────────────────────────

fn user_message(words: &str) -> Json {
    object(vec![
        ("role", text("user")),
        ("parts", Json::List(vec![object(vec![("text", text(words))])])),
    ])
}

#[test]
fn earlier_prompts_are_collected_oldest_first() {
    let session = object(vec![(
        "messages",
        Json::List(vec![
            user_message(" first "),
            user_message("/help"),
            object(vec![("role", text("assistant"))]),
            user_message("second"),
        ]),
    )]);
    assert_eq!(extract_prompts_from_session_json(&session, 10), vec!["first", "second"]);
    assert_eq!(extract_prompts_from_session_json(&session, 1), vec!["first"]);
    assert!(extract_prompts_from_session_json(&session, 0).is_empty());
    assert!(extract_prompts_from_session_json(&Json::Null, 9).is_empty());
    let older = object(vec![("messages", Json::List(vec![user_message("zero")]))]);
    let mut prior = PriorPrompts::new();
    prior.add_session(&session);
    prior.add_session(&older);
    assert_eq!(prior.collected, vec!["zero", "first", "second"]);
    assert!(!prior.is_full());
}

#[test]
fn session_files_are_read_newest_first() {
    let file = |name: &str, modified: u128| SessionFile {
        modified,
        stem: Some(name.to_owned()),
        path: format!("/{name}.json"),
    };
    let order: Vec<String> = newest_first(vec![file("a", 1), file("b", 3), file("c", 2)])
        .into_iter()
        .map(|f| f.stem.unwrap())
        .collect();
    assert_eq!(order, vec!["b", "c", "a"]);
    assert!(is_current_session(&Some("a".to_owned()), &Some("a".to_owned())));
    assert!(!is_current_session(&Some("a".to_owned()), &None));
}

#[test]
fn exported_sessions_are_read_back() {
    let export = object(vec![(
        "messages",
        Json::List(vec![
            object(vec![("role", text("assistant")), ("content", text("hello"))]),
            object(vec![("content", text("hi"))]),
        ]),
    )]);
    let messages = messages_from_export(&export);
    assert_eq!(messages.len(), 2);
    assert_eq!(messages[0].role, Role::Assistant);
    assert_eq!(messages[1].role, Role::User);
    assert!(matches!(&messages[0].parts[0], MessagePart::Text(t) if t == "hello"));
}

// ── the queue ───────────────────────────────────────────────────────────

fn idle_turn() -> TurnState {
    TurnState {
        messages: Vec::new(),
        queued_prompts: Vec::new(),
        total_user_turns: 0,
        streaming_text: String::new(),
        streaming_reasoning: String::new(),
        streaming_response_bytes: 9,
        streaming_response_baseline: 4,
        streaming_thinking_tokens: 40,
        turn_output_tokens: 9,
        refusal_fallback_attempted: true,
        network_recovery_status: None,
        network_recovery_attempts: 1,
        stream_lifecycle: None,
        streaming_assistant_idx: None,
        is_streaming: false,
        streaming_started_at: None,
        last_stream_event_at: None,
        streaming_last_token_at: None,
        turn_started_at: None,
        turn_start_cost: 0,
        pending_classifications: 0,
        agentic_turn_count: 4,
        last_usage_output: 0,
        usage_apply_baseline: (0, 0, 0, 0),
    }
}

#[test]
fn queued_prompts_start_a_turn() {
    let mut turn = idle_turn();
    for (words, is_meta) in [("/clear", true), ("do it", false)] {
        turn.queued_prompts.push(QueuedPrompt { text: words.to_owned(), is_meta, attachments: Vec::new() });
    }
    let plan = drain_queued_prompts(&mut turn, at(5), 7);
    assert_eq!(plan.commands, vec!["/clear"]);
    assert_eq!(plan.prompts, vec!["do it"]);
    assert!(turn.queued_prompts.is_empty() && turn.is_streaming);
    assert_eq!(turn.total_user_turns, 1);
    assert_eq!(plan.stream_into, Some(turn.messages.len() - 1));
    assert_eq!(route_text(&plan), "do it");
    let mut quiet = idle_turn();
    let plan = drain_queued_prompts(&mut quiet, at(5), 7);
    assert!(plan.stream_into.is_none() && !quiet.is_streaming);
}

#[test]
fn an_opened_session_starts_clean() {
    let mut turn = idle_turn();
    turn.streaming_text = "half".to_owned();
    turn.streaming_reasoning = "hm".to_owned();
    turn.streaming_assistant_idx = Some(3);
    let mut samples: VecDeque<(Duration, u64)> = [(Duration::from_secs(1), 4)].into_iter().collect();
    let mut scroll = Scroller {
        scroll_offset: 2,
        total_lines: 50,
        viewport_height: 20,
        follow_bottom: false,
        scroll_velocity: 0,
    };
    let mut selected = 0;
    let messages = vec![ChatMessage::user("old".to_owned())];
    session_opened(&mut turn, &mut samples, &mut scroll, &mut selected, messages, 5);
    assert_eq!((turn.messages.len(), selected), (1, 5));
    assert!(turn.streaming_text.is_empty() && turn.streaming_reasoning.is_empty() && samples.is_empty());
    assert_eq!((turn.streaming_response_bytes, turn.streaming_response_baseline), (0, 0));
    assert_eq!((turn.streaming_thinking_tokens, turn.streaming_assistant_idx), (0, None));
    assert_eq!((turn.turn_output_tokens, turn.agentic_turn_count), (9, 4));
    assert_eq!((scroll.scroll_offset, scroll.follow_bottom), (30, true));
}

#[test]
fn the_first_prompt_can_come_from_the_command_line() {
    let mut turn = idle_turn();
    submit_initial_prompt(&mut turn, "hello".to_owned(), at(1), 0);
    assert_eq!(turn.messages.len(), 2);
    assert!(turn.is_streaming);
    assert_eq!(turn.streaming_assistant_idx, Some(1));
}

// ── starting ────────────────────────────────────────────────────────────

#[test]
fn startup_settings_are_resolved() {
    assert_eq!(
        startup_permission_mode(PermissionMode::Default, Some(PermissionMode::Plan), false),
        PermissionMode::Plan
    );
    assert_eq!(
        startup_permission_mode(PermissionMode::Default, None, true),
        PermissionMode::BypassPermissions
    );
    let config = RemoteControlConfig { disabled: false, auto_start: true, port: 99 };
    assert_eq!(remote_control_port(false, Some(config), 7), Some(99));
    assert_eq!(remote_control_port(false, None, 7), None);
    assert_eq!(remote_control_port(true, None, 7), Some(7));
    let mut dirs = vec!["/a".to_owned()];
    add_directories(&mut dirs, &vec!["/a/".to_owned(), "/b".to_owned()]);
    assert_eq!(dirs, vec!["/a", "/b"]);
    assert!(is_switched_on(Some("1")));
    assert!(!is_switched_on(None));
    assert_eq!(startup_title_sequence(&None), "\u{1b}]0;jfc — jfc\u{7}");
}

#[test]
fn continuing_prefers_this_directory() {
    let here = choose_continued(Some("a".to_owned()), Some("b".to_owned()));
    assert_eq!((here.id.as_deref(), here.foreign), (Some("a"), false));
    assert!(foreign_session_notice(&here).is_none());
    let other = choose_continued(None, Some("b".to_owned()));
    assert_eq!((other.id.as_deref(), other.foreign), (Some("b"), true));
    assert!(foreign_session_notice(&other).unwrap().starts_with("No session for this directory"));
    assert!(!choose_continued(None, None).foreign);
}

fn saved_session() -> Option<LoadedSession> {
    Some(LoadedSession {
        messages: vec![ChatMessage::user("hi".to_owned()), ChatMessage::assistant("hello".to_owned())],
        model: Some("big".to_owned()),
    })
}

#[test]
fn a_resumed_session_goes_on() {
    let wanted = StartupSession::Resume("a".to_owned());
    let started = start_session(Vec::new(), wanted, saved_session(), &None, "new".to_owned(), false);
    assert_eq!(started.messages.len(), 2);
    assert_eq!(started.session_id.as_deref(), Some("a"));
    assert_eq!(started.model.as_deref(), Some("big"));
    assert!(started.open_session_tasks && started.restore_goal && started.notice.is_none());
    let lost = StartupSession::Resume("a".to_owned());
    let started = start_session(Vec::new(), lost, None, &None, "new".to_owned(), false);
    assert!(started.messages.is_empty() && started.session_id.is_none() && !started.restore_goal);
}

#[test]
fn a_continued_session_tells_where_it_comes_from() {
    let elsewhere = choose_continued(None, Some("b".to_owned()));
    let started =
        start_session(Vec::new(), StartupSession::Continue(elsewhere), saved_session(), &None, "new".to_owned(), true);
    assert_eq!(started.session_id.as_deref(), Some("b"));
    assert!(!started.open_session_tasks && started.restore_goal);
    assert!(started.notice.unwrap().starts_with("No session for this directory"));
    let nowhere = choose_continued(None, None);
    let started =
        start_session(Vec::new(), StartupSession::Continue(nowhere), saved_session(), &None, "new".to_owned(), true);
    assert!(started.messages.is_empty() && started.notice.is_none());
}

#[test]
fn a_forked_session_is_a_new_one() {
    let wanted = StartupSession::Fork("a".to_owned());
    let started = start_session(Vec::new(), wanted, saved_session(), &None, "new".to_owned(), false);
    assert_eq!(started.messages.len(), 2);
    assert_eq!(started.session_id.as_deref(), Some("new"));
    assert!(!started.open_session_tasks && !started.restore_goal && started.model.is_none());
    let export = object(vec![(
        "messages",
        Json::List(vec![object(vec![("role", text("user")), ("content", text("hi"))])]),
    )]);
    let wanted = StartupSession::Fork("a".to_owned());
    let notice = vec![ChatMessage::assistant("welcome".to_owned())];
    let started = start_session(notice, wanted, None, &Some(export), "new".to_owned(), false);
    assert_eq!(started.session_id.as_deref(), Some("new"));
    assert_eq!(started.messages.len(), 2);
    assert!(matches!(&started.messages[0].parts[0], MessagePart::Text(t) if t == "welcome"));
    assert!(matches!(&started.messages[1].parts[0], MessagePart::Text(t) if t == "hi"));
    let wanted = StartupSession::Fork("a".to_owned());
    assert!(start_session(Vec::new(), wanted, None, &None, "new".to_owned(), false).session_id.is_none());
    let fresh = start_session(Vec::new(), StartupSession::Fresh, saved_session(), &None, "new".to_owned(), false);
    assert!(fresh.messages.is_empty() && fresh.session_id.is_none());
}

#[test]
fn the_first_prompt_goes_to_the_session_in_use() {
    assert_eq!(session_in_use(Some("a".to_owned()), "new".to_owned()), "a");
    assert_eq!(session_in_use(None, "new".to_owned()), "new");
}

#[test]
fn a_restored_session_brings_its_model() {
    let own = |s: &str| s.to_owned();
    assert_eq!(restored_model(own("p"), own("m"), None, None), (own("p"), own("m")));
    assert_eq!(restored_model(own("p"), own("m"), Some(own("big")), None), (own("p"), own("big")));
    let known = Some((own("q"), own("big")));
    assert_eq!(restored_model(own("p"), own("m"), Some(own("big")), known), (own("q"), own("big")));
}

#[test]
fn titles_and_branches_are_read() {
    assert_eq!(branch_from_head(Some("ref: refs/heads/main\n")), Some("main".to_owned()));
    assert_eq!(branch_from_head(Some("0123abcd\n")), Some("(detached)".to_owned()));
    assert_eq!(branch_from_head(None), None);
    let mut title = TitleState {
        cwd: "/work/jfc".to_owned(),
        model: "big".to_owned(),
        total_lines: 50,
        scroll_offset: 10,
        viewport_height: 20,
        follow_bottom: false,
        is_streaming: true,
    };
    assert_eq!(terminal_title(&title), "(20 new) jfc · big · jfc");
    title.follow_bottom = true;
    assert_eq!(terminal_title(&title), "● jfc · big · jfc");
    let mut last = String::new();
    assert!(title_update(&mut last, &title).is_some());
    assert!(title_update(&mut last, &title).is_none());
}

// ── ticks ───────────────────────────────────────────────────────────────

#[test]
fn ticks_do_each_thing_in_its_time() {
    assert!(due(None, at(0), 1000));
    assert!(!due(Some(at(0)), at(0), 1));
    assert!(due(Some(at(0)), at(1), 1000));
    let mut state = tick_state();
    let mut turn = idle_turn();
    let mut away = away_since(99);
    let inputs = TickInputs { mcp_refresh_counter: 1, keybindings_counter: 2, ..quiet_inputs(100) };
    let first = handle_tick(&mut state, &mut turn, &mut away, &inputs);
    let due = first.housekeeping;
    assert!(due.announce_mcp_change && due.reload_keybindings && due.read_git_branch && first.needs_draw);
    assert_eq!(state.clocks.spinner_frame, 0);
    let second = handle_tick(&mut state, &mut turn, &mut away, &inputs);
    let due = second.housekeeping;
    assert!(!due.announce_mcp_change && !due.reload_keybindings && !due.read_git_branch && !second.needs_draw);
}

fn tick_state() -> TickState {
    let clocks = TickClocks {
        spinner_frame: 9,
        last_detached_sync_at: None,
        snapshot_refreshed_at: None,
        last_heartbeat_at: None,
        worktree_count_last_refresh: None,
        git_branch_last_refresh: None,
        last_mcp_refresh_seen: 0,
        last_file_watcher_seen: 0,
        last_keybindings_seen: 0,
    };
    TickState {
        clocks,
        spinner: SpinnerState { phase: SpinnerPhase::Requesting, entered_at: at(0), thinking_first_seen_at: None },
        pacer: StreamPacer::default(),
        paced_key: None,
        rate_samples: VecDeque::new(),
        compaction: CompactArm { force_compact_pending: false, speculative_compact_fired: false },
    }
}

fn away_since(secs: u64) -> AwayState {
    AwayState {
        away_recap: None,
        last_user_activity_at: at(secs),
        interaction_message_idx: 0,
        idle_return_shown: false,
    }
}

fn quiet_inputs(secs: u64) -> TickInputs {
    TickInputs {
        now: at(secs),
        spinner_len: 10,
        thinking_started: false,
        thinking_ended: false,
        compacting: false,
        tools_pending: false,
        question_pending: false,
        pipeline_busy: false,
        approx_tokens: 9,
        near_limit: false,
        total_cost: 7,
        has_oauth: true,
        mcp_refresh_counter: 0,
        file_watcher_counter: 0,
        keybindings_counter: 0,
        config_reminder_queued: false,
        in_git_repo: true,
        team_active: false,
        team_named: false,
        wants_animation: false,
        other_change: false,
    }
}

#[test]
fn a_tick_shows_what_has_been_received() {
    let mut state = tick_state();
    let mut turn = idle_turn();
    turn.messages = vec![ChatMessage::user("go".to_owned()), ChatMessage::assistant("a\nb\nc".to_owned())];
    turn.streaming_assistant_idx = Some(1);
    turn.is_streaming = true;
    turn.streaming_started_at = Some(at(98));
    turn.turn_output_tokens = 12;
    let mut away = away_since(0);
    let plan = handle_tick(&mut state, &mut turn, &mut away, &quiet_inputs(100));
    assert_eq!((state.pacer.revealed, state.paced_key), (3, Some((1, 1))));
    assert_eq!(state.rate_samples.iter().copied().collect::<Vec<_>>(), vec![(Duration::from_secs(2), 12)]);
    assert!(plan.greeting.is_none() && plan.drained.is_none() && !plan.needs_draw);
    turn.messages[1].parts.push(MessagePart::Reasoning("hm".to_owned()));
    handle_tick(&mut state, &mut turn, &mut away, &TickInputs { thinking_started: true, ..quiet_inputs(101) });
    assert_eq!((state.pacer.revealed, state.paced_key), (0, Some((1, 2))));
    assert_eq!(state.rate_samples.back(), Some(&(Duration::from_secs(3), 40)));
    // What was sampled stays when the stream ends.
    turn.is_streaming = false;
    handle_tick(&mut state, &mut turn, &mut away, &quiet_inputs(102));
    assert_eq!((state.pacer.revealed, state.paced_key, state.rate_samples.len()), (0, None, 2));
}

#[test]
fn a_tick_greets_drains_and_arms() {
    let mut state = tick_state();
    let mut turn = idle_turn();
    turn.messages.push(ChatMessage::user("go".to_owned()));
    let mut away = away_since(0);
    let inputs = TickInputs { near_limit: true, ..quiet_inputs(4500) };
    let plan = handle_tick(&mut state, &mut turn, &mut away, &inputs);
    assert!(plan.greeting.unwrap().starts_with("Welcome back! Context: ~9 ") && plan.needs_draw);
    assert!(away.idle_return_shown && state.compaction.force_compact_pending);
    // A turn that the drain begins keeps a compaction from being armed.
    state.compaction = CompactArm { force_compact_pending: false, speculative_compact_fired: false };
    turn.queued_prompts.push(QueuedPrompt { text: "more".to_owned(), is_meta: false, attachments: Vec::new() });
    let waiting = TickInputs { question_pending: true, near_limit: false, ..inputs };
    assert!(handle_tick(&mut state, &mut turn, &mut away, &waiting).drained.is_none());
    let plan = handle_tick(&mut state, &mut turn, &mut away, &inputs);
    assert_eq!(plan.drained.unwrap().prompts, vec!["more"]);
    assert!(plan.needs_draw && plan.greeting.is_none());
    assert!(turn.is_streaming && !state.compaction.force_compact_pending);
}

#[test]
fn permissions_follow_the_mode() {
    assert_eq!(auto_permission(PermissionMode::BypassPermissions, "Bash"), Some(true));
    assert_eq!(auto_permission(PermissionMode::Plan, "Read"), Some(false));
    assert_eq!(auto_permission(PermissionMode::AcceptEdits, "Bash"), None);
    assert_eq!(auto_permission(PermissionMode::AcceptEdits, "Edit"), Some(true));
    assert_eq!(auto_permission(PermissionMode::Default, "Write"), None);
    assert_eq!(auto_permission(PermissionMode::Default, "Read"), Some(true));
    assert!(permission_feedback(false, PermissionMode::Plan).unwrap().contains("Plan"));
    assert!(permission_feedback(true, PermissionMode::Plan).is_none());
    assert_eq!(
        permission_notice("bob", "Bash", "7"),
        "🔒 bob wants to Bash — /swarm-approve 7 or /swarm-deny 7"
    );
}

#[test]
fn users_are_greeted_once() {
    let mut shown = false;
    let idle = Duration::from_secs(4500);
    assert!(welcome_back(&mut shown, true, idle, 1, 9).is_none());
    assert!(welcome_back(&mut shown, false, idle, 0, 9).is_none());
    assert!(welcome_back(&mut shown, false, idle, 1, 9).unwrap().starts_with("Welcome back! Context: ~9 "));
    assert!(welcome_back(&mut shown, false, idle, 1, 9).is_none());
}

#[test]
fn the_queue_waits_for_the_turn() {
    let free = IdleSignals {
        queued_prompts: 1,
        is_streaming: false,
        turn_started: false,
        question_pending: false,
        pipeline_busy: false,
    };
    assert!(idle_drain_due(free));
    assert!(!idle_drain_due(IdleSignals { queued_prompts: 0, ..free }));
    assert!(!idle_drain_due(IdleSignals { is_streaming: true, ..free }));
    let mut arm = CompactArm { force_compact_pending: false, speculative_compact_fired: false };
    arm_compaction(&mut arm, true, false, true);
    assert!(!arm.force_compact_pending);
    arm_compaction(&mut arm, false, false, true);
    assert!(arm.force_compact_pending && arm.speculative_compact_fired);
}

// ── events ──────────────────────────────────────────────────────────────

fn finished_request() -> FinishedRequest {
    FinishedRequest {
        usage: vec![ModelTotals {
            input_tokens: 10,
            output_tokens: 3,
            cache_read_tokens: 0,
            cache_write_tokens: 0,
            thinking_tokens: 0,
        }],
        total_cost: 70,
        facts: RequestFacts {
            ts_unix: 1,
            model: "big".to_owned(),
            prompt: None,
            context_used_tokens: 1,
            context_window_tokens: 100,
            rsi_prompt_sections: 0,
            rsi_tool_visibility_rules: 0,
        },
    }
}

#[test]
fn effects_change_the_view() {
    let mut view = ViewState {
        follow_bottom: true,
        selecting: false,
        path_yank_cursor: 3,
        task_panel_selected: 4,
        task_panel_detail: true,
        viewing_task: true,
        show_model_picker: false,
        pending_rewrite_proposal: None,
    };
    let mut timeline = App { timeline: VecDeque::new(), timeline_baseline: Default::default() };
    let mut apply = |effect| {
        let actions = apply_engine_effect(&mut view, &mut timeline, effect, finished_request());
        (actions, timeline.timeline.len())
    };
    assert!(apply(EngineEffect::ScrollToBottom).0.scroll_to_bottom);
    assert_eq!(apply(EngineEffect::ToolOutputArrived).1, 0);
    let (actions, samples) = apply(EngineEffect::StreamingFinalized);
    assert!(actions.clear_streaming_cache);
    assert_eq!(samples, 1);
    assert_eq!(apply(EngineEffect::StreamingFinalized).1, 1);
    let (actions, samples) = apply(EngineEffect::SessionSwitched);
    assert!(actions.clear_expanded_parts && actions.recompute_tokens);
    assert_eq!(samples, 0);
    assert_eq!((view.path_yank_cursor, view.task_panel_selected), (0, 0));
    let busy = ActivitySignals {
        is_streaming: true,
        compacting: false,
        tools_pending: false,
        approval_pending: false,
        approvals_queued: false,
        background_alive: false,
        turn_started: false,
    };
    assert!(wants_streaming_cursor(busy));
    assert!(!wants_streaming_cursor(ActivitySignals { is_streaming: false, ..busy }));
}

#[test]
fn providers_report_their_models() {
    let mut state = ProviderState {
        mcp_servers: Vec::new(),
        lsp_servers: Vec::new(),
        diagnostics: Vec::new(),
        provider_models: TextMap::new(),
        seat_tier: None,
        subscription_type: None,
        account_email: None,
        account_snapshot: None,
        service_status: None,
        service_status_error: None,
    };
    let loaded =
        ProviderEvent::ModelsLoaded { provider: "acme".to_owned(), models: vec!["big".to_owned()] };
    let next = handle_provider_event(&mut state, loaded);
    assert!(next.sync_context_window && next.refresh_models && !next.publish_diagnostics);
    assert_eq!(state.provider_models.get("acme").unwrap(), &vec!["big".to_owned()]);
    assert!(handle_provider_event(&mut state, ProviderEvent::DiagnosticsUpdated(Vec::new())).publish_diagnostics);
}

#[test]
fn dictation_replaces_what_is_not_final() {
    let mut view: VoiceView<u8> = VoiceView {
        state: VoiceState::Idle,
        levels: Vec::new(),
        record_started: None,
        interim: None,
        interim_chars: 0,
    };
    handle_voice_event(&mut view, VoiceEvent::StateChanged(1), at(0));
    assert_eq!(view.record_started, Some(at(0)));
    for level in 0..20 {
        handle_voice_event(&mut view, VoiceEvent::Level(level), at(0));
    }
    assert_eq!(view.levels.len(), 16);
    assert_eq!(view.levels[0], 4);
    handle_voice_event(&mut view, VoiceEvent::Interim("héllo".to_owned()), at(1));
    let action = handle_voice_event(&mut view, VoiceEvent::Final("hello".to_owned()), at(2));
    assert!(matches!(action, VoiceAction::Transcript { delete: 5, text } if text == "hello"));
    let failed = handle_voice_event(&mut view, VoiceEvent::Error("mic".to_owned()), at(3));
    assert!(matches!(failed, VoiceAction::Notice { delete: 0, text } if text == "Voice error: mic"));
    let auto = Some(object(vec![("autoSubmit", Json::Bool(true))]));
    assert!(matches!(inject_voice_transcript(&auto, "x".to_owned()), Delivery::Send(_)));
    assert!(matches!(inject_voice_transcript(&None, "x".to_owned()), Delivery::Type(_)));
}

#[test]
fn snapshots_sort_the_profile() {
    let facts = SessionFacts {
        generated_at_unix: 5,
        session_id: None,
        model: "big".to_owned(),
        context_window_tokens: 100,
        context_used_tokens: 10,
        running_budget: None,
        last_budget: None,
        last_system_prompt_len: Some(8),
        running_rsi: Some((1, 2)),
        total_cost: 9,
    };
    let phase = |name: &str, nanos: u64| ProfilePhase {
        name: name.to_owned(),
        nanos,
        spans: 1,
        bytes: 0,
        items: 0,
    };
    let row = ModelUsageRow {
        model: "big".to_owned(),
        input_tokens: 1,
        output_tokens: 2,
        cache_read_tokens: 3,
        cache_write_tokens: 4,
        thinking_tokens: 5,
        cost: 6,
    };
    let snapshot = build_snapshot(facts, vec![row], vec![phase("draw", 3), phase("parse", 9)]);
    assert_eq!(snapshot.profile[0].name, "parse");
    assert_eq!(snapshot.rsi_prompt_sections, 1);
    assert_eq!(snapshot.usage_by_model.len(), 1);
}

#[test]
fn the_start_is_planned_from_the_settings() {
    let facts = StartupFacts {
        advisor_enabled: false,
        has_local_advisor: true,
        council_from_env: false,
        council_in_config: Some(true),
        rewrite_configured: true,
        rewrite_enabled: false,
        onboarding_gate: true,
        sessions_empty: true,
        show_startup_banner: true,
        nudge_gate: true,
        nudge_seen: true,
        slate_enabled: false,
        cross_session_history: true,
    };
    let plan = plan_startup(&facts);
    assert!(plan.advisor_enabled && plan.council_verdict && plan.show_help && plan.load_history);
    assert!(!plan.prompt_rewrite && !plan.show_auto_nudge && !plan.route_by_class);
    let nudge = auto_nudge_message();
    assert!(matches!(&nudge.parts[0], MessagePart::Text(t) if t.contains("Auto mode is now the default")));
}

#[test]
fn a_discarded_speculation_wrote_nothing() {
    let mut session = SpeculationSession::new("s".to_owned(), "/tmp/o".to_owned(), 5, at(0));
    session.tool_use_count = 2;
    session.written_paths.push("a".to_owned());
    let result = session.discard(at(3));
    assert!(!result.accepted);
    assert_eq!((result.duration_ms, result.tool_calls, result.files_written), (3_000, 2, 0));
}

#[test]
fn a_prompt_ends_the_idle_period() {
    let mut predictor = PromptPredictor::new();
    let said = [MessageSummary { role: MessageRole::User, text: "fix the bug".to_owned(), tools_used: Vec::new() }];
    predictor.should_speculate(Duration::from_secs(3_600), &said, at(0));
    assert!(predictor.prediction_attempted);
    predictor.on_user_prompt();
    assert!(!predictor.prediction_attempted && predictor.current.is_none());
    assert!(predictor.last_response_at.is_none());
}
