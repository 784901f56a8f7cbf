use jfc::compaction::{
    coalesce_consecutive_same_role, extract_first_prompt, is_empty_assistant_placeholder, persistent_session_messages,
    repair_loaded_messages,
};
use jfc::transcript::{
    Attachment, AttachmentKind, ChatMessage, MessagePart, ModelUsage, Role, ToolCall, ToolDisplayState, ToolInput,
    ToolKind, ToolOutput, ToolStatus,
};
use jfc::turns::{validate_turn_invariants, TurnFault, TurnViolation};

fn user_text(s: &str) -> ChatMessage {
    ChatMessage::user(s.to_owned())
}

fn assistant_text(s: &str) -> ChatMessage {
    ChatMessage::assistant(s.to_owned())
}

fn tool(id: &str, status: ToolStatus, output: ToolOutput) -> MessagePart {
    MessagePart::tool(ToolCall {
        id: id.to_owned(),
        kind: ToolKind::Bash,
        status,
        input: ToolInput::Generic { summary: "x".into() },
        output,
        display: ToolDisplayState::default(),
        elapsed_ms: None,
        started_at: None,
        thought_signature: None,
    })
}

fn tool_part(id: &str) -> MessagePart {
    tool(id, ToolStatus::Completed, ToolOutput::Text("ok".into()))
}

fn usage_only_refusal() -> ChatMessage {
    let mut msg = ChatMessage::assistant(String::new());
    msg.usage = Some(ModelUsage {
        input_tokens: 6,
        output_tokens: 2,
        cache_read_tokens: 22107,
        cache_write_tokens: 90833,
        cost_usd: None,
    });
    msg
}

fn tool_status(msg: &ChatMessage) -> ToolStatus {
    msg.parts
        .iter()
        .find_map(|p| match p {
            MessagePart::Tool(tc) => Some(tc.status),
            _ => None,
        })
        .expect("a tool part")
}

#[test]
fn coalesces_five_assistant_substreams_to_one_normal() {
    let input = vec![
        user_text("do the thing"),
        ChatMessage::assistant_parts(vec![MessagePart::Text("step 1".into()), tool_part("t1")]),
        ChatMessage::assistant_parts(vec![MessagePart::Text("step 2".into()), tool_part("t2")]),
        ChatMessage::assistant_parts(vec![MessagePart::Text("step 3".into()), tool_part("t3")]),
        ChatMessage::assistant_parts(vec![MessagePart::Text("step 4".into()), tool_part("t4")]),
        assistant_text("done"),
        user_text("next prompt"),
    ];
    let out = coalesce_consecutive_same_role(&input);
    assert_eq!(out.len(), 3, "must collapse the 5 sub-streams into one");
    assert_eq!(out[0].role, Role::User);
    assert_eq!(out[1].role, Role::Assistant);
    assert_eq!(out[2].role, Role::User);
    assert_eq!(out[1].parts.len(), 9);
    validate_turn_invariants(&out).expect("coalesced session must satisfy invariants");
}

#[test]
fn coalesce_empty_input_normal() {
    let out = coalesce_consecutive_same_role(&[]);
    assert!(out.is_empty());
}

#[test]
fn coalesce_already_alternating_is_fixed_point_robust() {
    let input = vec![
        user_text("a"),
        assistant_text("b"),
        user_text("c"),
        assistant_text("d"),
    ];
    let first_pass = coalesce_consecutive_same_role(&input);
    let second_pass = coalesce_consecutive_same_role(&first_pass);
    assert_eq!(first_pass.len(), 4);
    assert_eq!(first_pass.len(), second_pass.len());
    for (a, b) in first_pass.iter().zip(second_pass.iter()) {
        assert_eq!(a.role, b.role);
        assert_eq!(a.parts.len(), b.parts.len());
    }
}

#[test]
fn coalesce_skips_queued_messages_robust() {
    let mut queued = user_text("queued");
    queued.queued = true;
    let input = vec![user_text("first"), queued, user_text("second")];
    let out = coalesce_consecutive_same_role(&input);
    assert_eq!(out.len(), 3);
    assert!(out[1].queued);
}

#[test]
fn coalesce_picks_last_usage_robust() {
    let mut first = ChatMessage::assistant("step 1".into());
    first.usage = Some(ModelUsage {
        input_tokens: 100,
        output_tokens: 10,
        cache_read_tokens: 0,
        cache_write_tokens: 0,
        cost_usd: None,
    });
    let mut last = ChatMessage::assistant("step 2".into());
    last.usage = Some(ModelUsage {
        input_tokens: 100,
        output_tokens: 200,
        cache_read_tokens: 0,
        cache_write_tokens: 0,
        cost_usd: None,
    });
    let input = vec![user_text("hi"), first, last];
    let out = coalesce_consecutive_same_role(&input);
    assert_eq!(out.len(), 2);
    let usage = out[1].usage.as_ref().expect("usage must survive merge");
    assert_eq!(
        usage.output_tokens, 200,
        "merged usage must be the LAST sub-stream's value (cumulative end-of-turn count)"
    );
}

#[test]
fn coalesce_preserves_compact_boundary_robust() {
    let boundary =
        ChatMessage::assistant_parts(vec![MessagePart::CompactBoundary { pre_tokens: 100 }]);
    let input = vec![
        user_text("first"),
        assistant_text("step 1"),
        boundary,
        assistant_text("step 2"),
    ];
    let out = coalesce_consecutive_same_role(&input);
    assert_eq!(out.len(), 4);
    assert!(
        out[2].is_compact_boundary(),
        "boundary must survive on its own message"
    );
}

#[test]
fn repair_strips_orphan_tool_part_keeps_user_text_robust() {
    let mut bad_user = ChatMessage::user("please continue".into());
    bad_user.parts.push(tool_part("toolu_orphan"));

    let out = repair_loaded_messages(vec![
        user_text("start"),
        assistant_text("ok"),
        bad_user,
        assistant_text("done"),
    ]);

    let user_tool_parts = out
        .iter()
        .filter(|m| m.role == Role::User)
        .flat_map(|m| &m.parts)
        .filter(|p| matches!(p, MessagePart::Tool(_)))
        .count();
    assert_eq!(user_tool_parts, 0, "user tool part must be stripped");
    validate_turn_invariants(&out).expect("repaired transcript must be valid");
}

#[test]
fn repair_drops_user_message_that_is_only_a_tool_part_robust() {
    let mut only_tool = ChatMessage::user(String::new());
    only_tool.parts = vec![tool_part("toolu_only")];

    let out = repair_loaded_messages(vec![
        user_text("start"),
        assistant_text("more"),
        only_tool,
        assistant_text("done"),
    ]);

    let user_count = out.iter().filter(|m| m.role == Role::User).count();
    assert_eq!(user_count, 1, "tool-only user turn must be dropped");
    validate_turn_invariants(&out).expect("repaired transcript must be valid");
}

#[test]
fn refusal_shape_is_placeholder_normal() {
    let msg = usage_only_refusal();
    assert!(
        is_empty_assistant_placeholder(&msg),
        "usage-only empty assistant must be treated as a placeholder so it's stripped on save"
    );
}

#[test]
fn non_empty_assistant_is_not_placeholder_normal() {
    let mut msg = ChatMessage::assistant("hello".into());
    msg.usage = Some(ModelUsage {
        input_tokens: 1,
        output_tokens: 1,
        cache_read_tokens: 0,
        cache_write_tokens: 0,
        cost_usd: None,
    });
    assert!(!is_empty_assistant_placeholder(&msg));
}

#[test]
fn empty_reasoning_only_assistant_is_placeholder_robust() {
    let mut msg = ChatMessage::assistant(String::new());
    msg.parts = vec![MessagePart::Reasoning(String::new())];
    assert!(
        is_empty_assistant_placeholder(&msg),
        "an empty-reasoning-only assistant must be stripped to satisfy the invariant"
    );
    let mut thinking = ChatMessage::assistant(String::new());
    thinking.parts = vec![MessagePart::Reasoning("let me think…".into())];
    assert!(!is_empty_assistant_placeholder(&thinking));
    let mut mixed = ChatMessage::assistant(String::new());
    mixed.parts = vec![
        MessagePart::Text(String::new()),
        MessagePart::Reasoning("   ".into()),
    ];
    assert!(is_empty_assistant_placeholder(&mixed));
}

#[test]
fn refusal_artefact_survives_save_pipeline_robust() {
    let input = vec![
        user_text("first continuation reminder"),
        usage_only_refusal(),
        user_text("second continuation reminder"),
    ];
    let out = persistent_session_messages(&input);
    assert_eq!(
        out.len(),
        1,
        "the two user turns must coalesce after the placeholder is stripped"
    );
    assert_eq!(out[0].role, Role::User);
    let text: String = out[0]
        .parts
        .iter()
        .map(|p| match p {
            MessagePart::Text(t) => t.as_str(),
            _ => "",
        })
        .collect();
    assert!(text.contains("first continuation reminder"));
    assert!(text.contains("second continuation reminder"));
    validate_turn_invariants(&out)
        .expect("post-save transcript must satisfy alternating-role invariants");
}

#[test]
fn queued_assistant_never_placeholder_robust() {
    let mut msg = ChatMessage::assistant(String::new());
    msg.queued = true;
    assert!(
        !is_empty_assistant_placeholder(&msg),
        "queued messages must never be filtered as placeholders"
    );
}

#[test]
fn assistant_with_attachments_is_not_placeholder_robust() {
    let mut msg = ChatMessage::assistant(String::new());
    msg.attachments = vec![Attachment {
        id: 1,
        kind: AttachmentKind::ImagePng,
        bytes: vec![0u8; 4],
    }];
    assert!(
        !is_empty_assistant_placeholder(&msg),
        "assistant with attachments carries content and must survive save"
    );
}

#[test]
fn stranded_pending_tool_is_terminalized_normal_regression() {
    let input = vec![
        ChatMessage::user("do it".into()),
        ChatMessage::assistant_parts(vec![tool("t1", ToolStatus::Pending, ToolOutput::Empty)]),
        ChatMessage::user("next".into()),
        ChatMessage::assistant("done".into()),
    ];
    let out = persistent_session_messages(&input);
    let coerced = out
        .iter()
        .find(|m| m.parts.iter().any(|p| matches!(p, MessagePart::Tool(_))))
        .expect("tool message survives");
    assert_eq!(
        tool_status(coerced),
        ToolStatus::Failed,
        "a stranded Pending tool must terminalize to Failed on save"
    );
    let has_stub = coerced.parts.iter().any(|p| matches!(
        p,
        MessagePart::Tool(tc) if matches!(&tc.output, ToolOutput::Text(t) if t.contains("did not report completion"))
    ));
    assert!(has_stub, "abandoned stub output must be written");
}

#[test]
fn in_flight_tail_tool_is_left_untouched_robust() {
    let input = vec![
        ChatMessage::user("do it".into()),
        ChatMessage::assistant_parts(vec![tool("t1", ToolStatus::Running, ToolOutput::Empty)]),
    ];
    let out = persistent_session_messages(&input);
    let tail = out.last().expect("tail survives");
    assert_eq!(
        tool_status(tail),
        ToolStatus::Running,
        "an in-flight tool in the tail message must keep its live status"
    );
}

#[test]
fn completed_tool_is_preserved_robust() {
    let input = vec![
        ChatMessage::user("do it".into()),
        ChatMessage::assistant_parts(vec![tool(
            "t1",
            ToolStatus::Completed,
            ToolOutput::Text("real output".into()),
        )]),
        ChatMessage::user("next".into()),
        ChatMessage::assistant("done".into()),
    ];
    let out = persistent_session_messages(&input);
    let coerced = out
        .iter()
        .find(|m| m.parts.iter().any(|p| matches!(p, MessagePart::Tool(_))))
        .expect("tool message survives");
    assert_eq!(tool_status(coerced), ToolStatus::Completed);
    let preserved = coerced.parts.iter().any(|p| matches!(
        p,
        MessagePart::Tool(tc) if matches!(&tc.output, ToolOutput::Text(t) if t == "real output")
    ));
    assert!(preserved, "completed tool output must survive verbatim");
}

#[test]
fn load_repair_terminalizes_final_pending_tool_robust() {
    let input = vec![
        ChatMessage::user("do it".into()),
        ChatMessage::assistant_parts(vec![tool("t1", ToolStatus::Pending, ToolOutput::Empty)]),
    ];
    let out = repair_loaded_messages(input);
    let tail = out.last().expect("tail survives");
    assert_eq!(
        tool_status(tail),
        ToolStatus::Failed,
        "a loaded transcript has no live in-flight tail, so pending tools must be failed"
    );
}

#[test]
fn the_first_fault_is_reported() {
    assert_eq!(validate_turn_invariants(&[]), Ok(()));
    assert_eq!(
        validate_turn_invariants(&[user_text("a"), user_text("b")]),
        Err(TurnViolation { fault: TurnFault::ConsecutiveUser, index: 1 })
    );
    assert_eq!(
        validate_turn_invariants(&[assistant_text("a"), assistant_text("b")]),
        Err(TurnViolation { fault: TurnFault::ConsecutiveAssistant, index: 1 })
    );
    assert_eq!(
        validate_turn_invariants(&[user_text("a"), assistant_text("  ")]),
        Err(TurnViolation { fault: TurnFault::EmptyMessage, index: 1 })
    );
    let mut bad = user_text("a");
    bad.parts.push(tool_part("t"));
    assert_eq!(
        validate_turn_invariants(&[bad]),
        Err(TurnViolation { fault: TurnFault::OrphanToolResult, index: 0 })
    );
}

#[test]
fn coalescing_twice_changes_nothing() {
    let input = vec![user_text("a"), user_text("b"), assistant_text("c"), assistant_text("d")];
    let once = coalesce_consecutive_same_role(&input);
    let twice = coalesce_consecutive_same_role(&once);
    assert_eq!(once.len(), 2);
    assert_eq!(twice.len(), 2);
    assert!(matches!(&once[0].parts[0], MessagePart::Text(t) if t == "ab"));
    assert!(matches!(&twice[1].parts[0], MessagePart::Text(t) if t == "cd"));
}

#[test]
fn the_first_prompt_is_trimmed_and_cut() {
    assert_eq!(extract_first_prompt(&[]), None);
    assert_eq!(extract_first_prompt(&[assistant_text("hi")]), None);
    assert_eq!(extract_first_prompt(&[user_text("  fix it \n")]), Some("fix it".to_string()));
    let long = "é".repeat(51);
    let cut = format!("{}…", "é".repeat(50));
    assert_eq!(extract_first_prompt(&[user_text(&long)]), Some(cut));
    let blank_first = vec![user_text("  "), user_text("later")];
    assert_eq!(extract_first_prompt(&blank_first), Some("later".to_string()));
    assert_eq!(extract_first_prompt(&[user_text("  "), assistant_text("hi")]), None);
}
