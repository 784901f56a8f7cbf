use jfc::activity::{
    active_tool_activity, activity_display_path, activity_subject_for_tool, background_task_id_from_output,
    bash_command_for_task, changed_line_count, estimate_multiedit_counts, file_activity_for_tool,
    first_activity_line, ActivityLabel, TurnTools,
};
use jfc::agent_detail::{agent_detail_lines, terminal_result_line};
use jfc::agents::{fleet_ordered_task_ids, render_subagent_tree};
use jfc::away::{handle_submit, is_plain_submission, AwayState};
use jfc::background::{count_alive, find_agent, BackgroundTask, Fleet};
use jfc::bash_picker::{bash_picker, shell_row, BashTaskSnapshot};
use jfc::dispatch::{
    agent_for, make_agent_id, report_fields, spawn_report, teammate_task_id, try_spawn_teammate, AgentDef,
    SpawnPlan, TaskInput,
};
use jfc::json::Json;
use jfc::layout::Rect;
use jfc::roster::{
    format_subagent_counters, format_token_count, model_fqn, plural_suffix, roster_row, tool_activity_count_label,
};
use jfc::teammates::teammates_title;
use jfc::styled::Line;
use jfc::text_map::TextMap;
use jfc::time::{Duration, Instant};
use jfc::transcript::{
    ChatMessage, MessagePart, TaskLifecycle, ToolCall, ToolDisplayState, ToolInput, ToolKind, ToolOutput,
    ToolStatus,
};

fn at(secs: u64) -> Instant {
    Instant::at_nanos(0).checked_add(Duration::from_secs(secs)).unwrap()
}

fn shown(line: &Line) -> String {
    line.spans.iter().map(|s| s.text.as_str()).collect()
}

fn all_shown(lines: &[Line]) -> String {
    lines.iter().map(|l| shown(l) + "\n").collect()
}

fn agent(id: &str, status: TaskLifecycle, started: u64) -> BackgroundTask {
    BackgroundTask {
        task_id: id.to_owned(),
        description: format!("work of {id}"),
        status,
        started_at: at(started),
        completed_at: if status.is_terminal() { Some(at(started + 10)) } else { None },
        summary: None,
        error: None,
        last_tool: None,
        last_tool_info: None,
        recent_activities: Vec::new(),
        messages: Vec::new(),
        chat_messages: Vec::new(),
        tool_use_count: 3,
        latest_input_tokens: 1_000,
        latest_cache_read_tokens: 200,
        latest_cache_write_tokens: 30,
        cumulative_output_tokens: 4,
        model_used: Some("acme/big".to_owned()),
        parent_task_id: None,
        workflow_progress: None,
        last_activity_at: at(started),
    }
}

fn tool(id: &str, kind: ToolKind, input: ToolInput, output: ToolOutput) -> ToolCall {
    ToolCall {
        id: id.to_owned(),
        kind,
        status: ToolStatus::Running,
        input,
        output,
        display: ToolDisplayState::default(),
        elapsed_ms: None,
        started_at: None,
        thought_signature: None,
    }
}

fn bash(id: &str, command: &str) -> ToolCall {
    tool(id, ToolKind::Bash, ToolInput::Bash { command: command.to_owned() }, ToolOutput::Empty)
}

#[test]
fn lines_of_an_edit_are_counted() {
    assert_eq!(changed_line_count(""), 0);
    assert_eq!(changed_line_count("a"), 1);
    assert_eq!(changed_line_count("a\nb\n"), 2);
    assert_eq!(changed_line_count("\n"), 1);
    let edit = |old: &str, new: &str| {
        Json::Object(vec![
            ("old_string".to_owned(), Json::Text(old.to_owned())),
            ("new_str".to_owned(), Json::Text(new.to_owned())),
        ])
    };
    let edits = Json::List(vec![edit("a", "b\nc"), edit("", "d"), Json::Null]);
    assert_eq!(estimate_multiedit_counts(&edits), (3, 1));
    assert_eq!(estimate_multiedit_counts(&Json::Null), (0, 0));
}

#[test]
fn files_and_subjects_of_tools() {
    let write = tool(
        "w",
        ToolKind::Write,
        ToolInput::Write { file_path: "/src/a.rs".to_owned(), content: "x\ny".to_owned() },
        ToolOutput::Empty,
    );
    let file = file_activity_for_tool(&write).unwrap();
    assert_eq!((file.path.as_str(), file.additions, file.deletions), ("/src/a.rs", 2, 0));
    let mut diffed = write.clone();
    diffed.output = ToolOutput::Diff { file_path: "/b.rs".to_owned(), additions: 7, deletions: 8 };
    let file = file_activity_for_tool(&diffed).unwrap();
    assert_eq!((file.path.as_str(), file.additions, file.deletions), ("/b.rs", 7, 8));
    assert!(file_activity_for_tool(&bash("b", "ls")).is_none());
    assert_eq!(activity_display_path("/src/dir\\a.rs/"), "a.rs");
    assert_eq!(activity_display_path("///"), "///");
    assert_eq!(first_activity_line("\n  cargo test \nmore"), Some("cargo test".to_owned()));
    assert_eq!(first_activity_line(" \n"), None);
    assert_eq!(ActivityLabel::for_tool(&write), ActivityLabel::Creating);
    assert_eq!(ActivityLabel::for_tool(&bash("b", "ls")), ActivityLabel::Running);
}

#[test]
fn background_shells_are_traced_to_their_command() {
    let started = ToolOutput::Text("Started.\ntask_id: bash_7 \n".to_owned());
    assert_eq!(background_task_id_from_output(&started), Some("bash_7".to_owned()));
    assert_eq!(background_task_id_from_output(&ToolOutput::Text("task_id: agent_7".to_owned())), None);
    assert_eq!(background_task_id_from_output(&ToolOutput::Empty), None);
    let mut shells: TextMap<String> = TextMap::new();
    let mut call = bash("t", "make all\n");
    call.output = started;
    let messages = vec![ChatMessage::assistant_parts(vec![MessagePart::Tool(call)])];
    assert_eq!(bash_command_for_task(&shells, &messages, "bash_7"), Some("make all".to_owned()));
    assert_eq!(bash_command_for_task(&shells, &messages, "bash_8"), None);
    shells.insert("bash_7".to_owned(), "known".to_owned());
    assert_eq!(bash_command_for_task(&shells, &messages, "bash_7"), Some("known".to_owned()));
    let read = tool(
        "o",
        ToolKind::BashOutput,
        ToolInput::BashOutput { task_id: "bash_7".to_owned() },
        ToolOutput::Empty,
    );
    assert_eq!(activity_subject_for_tool(&shells, &messages, &read), Some("known".to_owned()));
}

#[test]
fn the_heaviest_activity_is_shown() {
    let read = tool(
        "r",
        ToolKind::Read,
        ToolInput::Read { file_path: "/a.rs".to_owned() },
        ToolOutput::Empty,
    );
    let edit = tool(
        "e",
        ToolKind::Edit,
        ToolInput::Edit {
            file_path: "/b.rs".to_owned(),
            old_string: "x".to_owned(),
            new_string: "y".to_owned(),
        },
        ToolOutput::Empty,
    );
    let turn = TurnTools {
        pending_tool_calls: vec![read, edit],
        active_tool_calls: Vec::new(),
        messages: Vec::new(),
        in_progress_ids: Vec::new(),
        shells: TextMap::new(),
    };
    assert_eq!(active_tool_activity(&turn).unwrap().label, ActivityLabel::Editing);
    let idle = TurnTools {
        pending_tool_calls: Vec::new(),
        active_tool_calls: Vec::new(),
        messages: Vec::new(),
        in_progress_ids: Vec::new(),
        shells: TextMap::new(),
    };
    assert!(active_tool_activity(&idle).is_none());
}

#[test]
fn live_agents_come_first() {
    let fleet = Fleet {
        tasks: vec![
            agent("done", TaskLifecycle::Completed, 0),
            agent("live", TaskLifecycle::Running, 5),
        ],
        last_active: None,
        viewing: None,
    };
    assert_eq!(fleet_ordered_task_ids(&fleet, at(20)), vec!["live", "done"]);
    assert_eq!(count_alive(&fleet.tasks), 1);
    assert_eq!(find_agent(&fleet.tasks, "live").unwrap().total_tokens(), 1_234);
    assert!(find_agent(&fleet.tasks, "none").is_none());
    let text = all_shown(&render_subagent_tree(&fleet, 100, 6, at(20)));
    assert!(text.contains("work of live"), "{text}");
    assert!(render_subagent_tree(&fleet, 100, 0, at(20)).is_empty());
}

#[test]
fn an_ended_agent_does_not_change_any_more() {
    let done = agent("done", TaskLifecycle::Completed, 0);
    let early = all_shown(&agent_detail_lines(&done, 80, at(20)));
    let late = all_shown(&agent_detail_lines(&done, 80, at(2_000)));
    assert_eq!(early, late);
    let mut failed = agent("failed", TaskLifecycle::Failed, 0);
    failed.error = Some("broke".to_owned());
    assert!(shown(&terminal_result_line(&failed, 80).unwrap()).contains("broke"));
    assert!(terminal_result_line(&agent("live", TaskLifecycle::Running, 0), 80).is_none());
}

#[test]
fn roster_rows_fit_their_width() {
    let live = agent("live", TaskLifecycle::Running, 0);
    let wide = roster_row(&live, &None, &None, 120, at(5));
    assert!(shown(&wide).contains("work of live"));
    let narrow = roster_row(&live, &None, &None, 30, at(5));
    assert!(shown(&narrow).chars().count() < shown(&wide).chars().count());
    assert_eq!(format_token_count(999), "999");
    assert_eq!(plural_suffix(1), "");
    assert_eq!(plural_suffix(2), "s");
    assert!(tool_activity_count_label(&live).contains('3'));
    assert!(model_fqn("acme/big").contains("big"));
}

fn away_state() -> AwayState {
    AwayState {
        away_recap: Some("old".to_owned()),
        last_user_activity_at: at(0),
        interaction_message_idx: 0,
        idle_return_shown: false,
    }
}

#[test]
fn a_long_absence_is_summed_up() {
    let mut call = bash("t", "ls");
    call.status = ToolStatus::Failed;
    let messages = vec![ChatMessage::assistant_parts(vec![MessagePart::Tool(call)])];
    let mut s = away_state();
    handle_submit(&mut s, &messages, at(299));
    assert!(s.away_recap.is_none());
    assert_eq!(s.interaction_message_idx, 1);
    let mut s = away_state();
    handle_submit(&mut s, &messages, at(420));
    let recap = s.away_recap.unwrap();
    assert!(recap.ends_with("\n(away 7m · Esc to dismiss)"), "{recap}");
    assert!(!s.idle_return_shown);
    assert!(is_plain_submission(0, false));
    assert!(!is_plain_submission(1, false));
    assert!(!is_plain_submission(0, true));
}

#[test]
fn shells_are_listed_with_a_short_command() {
    let shell = BashTaskSnapshot {
        id: "bash_1".to_owned(),
        command: "x".repeat(70),
        status: "running".to_owned(),
        total_lines: 12,
        running: true,
    };
    let cells: Vec<String> = shell_row(&shell).into_iter().map(|c| c.text).collect();
    assert_eq!(cells, vec!["▶".to_owned(), "running".into(), "bash_1".into(), "12".into(), "x".repeat(60)]);
    let screen = Rect::new(0, 0, 100, 40);
    assert!(bash_picker(&Vec::new(), screen).empty_note.is_some());
    let picker = bash_picker(&vec![shell], screen);
    assert!(picker.empty_note.is_none());
    assert_eq!(picker.cells.len(), 1);
}

fn spawn_input() -> TaskInput {
    TaskInput {
        description: "look".to_owned(),
        prompt: "look around".to_owned(),
        subagent_type: Some("explore".to_owned()),
        name: Some("alice".to_owned()),
        team_name: Some("alpha".to_owned()),
        mode: None,
        parent_task_id: None,
    }
}

#[test]
fn teammates_are_spawned_with_a_report() {
    let agents = vec![AgentDef { name: "explore".to_owned(), max_input_tokens: Some(5) }];
    let session = Some("s1".to_owned());
    let color = "blue".to_owned();
    match try_spawn_teammate(&spawn_input(), &agents, &session, color, Ok("acme/big".to_owned())) {
        SpawnPlan::Spawn(s) => {
            assert_eq!(s.agent_id, make_agent_id("alice", "alpha"));
            assert_eq!(s.runner_task_id, teammate_task_id(&s.agent_id));
            assert_eq!(s.max_input_tokens, Some(5));
            assert_eq!(s.report, spawn_report(&s.agent_id, "alice", "alpha", "blue"));
            let parsed: serde_json::Value = serde_json::from_str(&s.report).unwrap();
            for (key, value) in report_fields(&s.agent_id, "alice", "alpha", "blue") {
                assert_eq!(parsed[&key], value.as_str());
            }
        }
        _ => panic!("a teammate is spawned"),
    }
    assert_eq!(agent_for(&spawn_input(), &agents).unwrap().name, "explore");
}

#[test]
fn spawning_can_be_refused() {
    let refused = try_spawn_teammate(
        &spawn_input(),
        &Vec::new(),
        &Some("s1".to_owned()),
        "blue".to_owned(),
        Err("no model".to_owned()),
    );
    assert!(matches!(refused, SpawnPlan::Refused(_)));
    let mut plain = spawn_input();
    plain.team_name = None;
    plain.name = None;
    let plan =
        try_spawn_teammate(&plain, &Vec::new(), &None, "blue".to_owned(), Ok("acme/big".to_owned()));
    assert!(matches!(plan, SpawnPlan::NotATeammate));
}

#[test]
fn counters_stand_behind_an_agent() {
    let mut bt = agent("a", TaskLifecycle::Running, 0);
    assert_eq!(format_subagent_counters(&bt), " · acme/big · 3 tools · 1.2k tok");
    bt.tool_use_count = 1;
    bt.model_used = None;
    assert_eq!(format_subagent_counters(&bt), " · 1 tool · 1.2k tok");
}

#[test]
fn the_panel_counts_its_agents() {
    let agents = vec![
        agent("a", TaskLifecycle::Running, 0),
        agent("b", TaskLifecycle::Completed, 1),
        agent("c", TaskLifecycle::Failed, 2),
    ];
    assert_eq!(teammates_title(&agents), " Agents · 1 running, 2 completed ");
}
