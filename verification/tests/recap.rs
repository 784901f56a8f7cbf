use jfc::session_recap::{generate_recap, group_tool_calls, RecapMessage};

#[test]
fn test_empty_messages() {
    assert_eq!(generate_recap(&[]), None);
}

#[test]
fn test_no_meaningful_activity() {
    let msgs = vec![RecapMessage {
        is_assistant: true,
        tool_calls: vec![],
        had_error: false,
        files_changed: vec![],
        text_preview: String::new(),
    }];
    assert_eq!(generate_recap(&msgs), None);
}

#[test]
fn test_basic_recap() {
    let msgs = vec![
        RecapMessage {
            is_assistant: true,
            tool_calls: vec!["Read".into(), "Read".into(), "Edit".into()],
            had_error: false,
            files_changed: vec!["src/main.rs".into()],
            text_preview: "I've updated the main function".into(),
        },
        RecapMessage {
            is_assistant: true,
            tool_calls: vec!["Bash".into()],
            had_error: true,
            files_changed: vec![],
            text_preview: "The tests failed with an error".into(),
        },
    ];

    let recap = generate_recap(&msgs).unwrap();
    assert!(recap.contains("While you were away"));
    assert!(recap.contains("Read ×2"));
    assert!(recap.contains("Edit"));
    assert!(recap.contains("Bash"));
    assert!(recap.contains("src/main.rs"));
    assert!(recap.contains("Errors: 1"));
}

#[test]
fn test_many_files() {
    let msgs = vec![RecapMessage {
        is_assistant: true,
        tool_calls: vec!["Write".into()],
        had_error: false,
        files_changed: vec![
            "a.rs".into(),
            "b.rs".into(),
            "c.rs".into(),
            "d.rs".into(),
            "e.rs".into(),
            "f.rs".into(),
        ],
        text_preview: String::new(),
    }];

    let recap = generate_recap(&msgs).unwrap();
    assert!(recap.contains("+3 more"));
}

#[test]
fn tool_calls_are_counted_by_name() {
    let calls: Vec<String> = vec!["Read".into(), "Edit".into(), "Read".into()];
    let groups = group_tool_calls(&calls);
    assert_eq!(groups.len(), 2);
}
