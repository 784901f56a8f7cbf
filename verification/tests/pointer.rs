use jfc::clicks::{
    bash_command_for_tool, click_tool, handle_left_click, session_at_row, toast_at_row, toast_row_at, ClickAction,
    ClickPlace, ExpandedGroups, ToolAction, ToolClick,
};
use jfc::input_events::{
    handle_focus_gained, handle_paste, key_route, KeyKind, KeyRoute, PasteBoard, PastedPath,
};
use jfc::layout::Rect;
use jfc::mouse::{
    drag_autoscroll_overrun, handle_mouse, selection_content_line, selection_started, Gesture, MouseKind,
    MouseReport, Scroller,
};
use jfc::selection::{
    after_extraction, copy_span, extract_selection_text, is_word_char, resolve_select_request, selection_line_span,
    selection_step, visible_selection, word_span_in_row, SelectKind, SelectRequest, SelectionStep, TextSelection,
};
use jfc::time::{Duration, Instant};
use jfc::transcript::{
    ChatMessage, MessagePart, ToolCall, ToolDisplayState, ToolInput, ToolKind, ToolOutput, ToolStatus,
};

const LEFT: u16 = 1;
const RIGHT: u16 = 40;

fn at_ms(ms: u128) -> Instant {
    Instant::at_nanos(ms * 1_000_000)
}

#[test]
fn selection_span_single_line_is_inclusive_normal() {
    let span = selection_line_span(7, (5, 7), (9, 7), LEFT, RIGHT);
    assert_eq!(span, (5, 10));
}

#[test]
fn selection_span_first_line_runs_to_right_edge_normal() {
    let span = selection_line_span(3, (12, 3), (8, 6), LEFT, RIGHT);
    assert_eq!(span, (12, RIGHT));
}

#[test]
fn selection_span_last_line_runs_from_left_edge_normal() {
    let span = selection_line_span(6, (12, 3), (8, 6), LEFT, RIGHT);
    assert_eq!(span, (LEFT, 9));
}

#[test]
fn selection_span_middle_line_is_full_width_robust() {
    let span = selection_line_span(4, (12, 3), (8, 6), LEFT, RIGHT);
    assert_eq!(span, (LEFT, RIGHT));
}

#[test]
fn selection_span_clamps_out_of_bounds_columns_robust() {
    let span = selection_line_span(2, (0, 2), (99, 2), LEFT, RIGHT);
    assert_eq!(span, (LEFT, RIGHT));
}

#[test]
fn selection_span_is_scroll_invariant_robust() {
    let span_near = selection_line_span(5, (3, 5), (9, 5), LEFT, RIGHT);
    let span_far = selection_line_span(10_005, (3, 10_005), (9, 10_005), LEFT, RIGHT);
    assert_eq!(span_near, span_far);
}

#[test]
fn word_span_selects_full_token_normal() {
    let chars: Vec<char> = "  foo/bar.rs  ".chars().collect();
    let (s, e) = word_span_in_row(&chars, 5);
    assert_eq!(&chars[s..=e].iter().collect::<String>(), "foo/bar.rs");
}

#[test]
fn word_span_on_whitespace_is_single_cell_robust() {
    let chars: Vec<char> = "ab cd".chars().collect();
    assert_eq!(word_span_in_row(&chars, 2), (2, 2));
}

#[test]
fn word_span_stops_at_punctuation_boundary_robust() {
    let chars: Vec<char> = "foo(bar)".chars().collect();
    let (s, e) = word_span_in_row(&chars, 1);
    assert_eq!((s, e), (0, 2));
    assert!(!is_word_char('('));
}

#[test]
fn letters_and_digits_of_any_script_make_words() {
    assert!(is_word_char('é'));
    assert!(is_word_char('7'));
    assert!(is_word_char('_'));
    assert!(!is_word_char(' '));
}

#[test]
fn clicks_resolve_to_a_word_or_a_line() {
    let area = Rect::new(0, 2, 12, 10);
    let row: Vec<char> = "let foo = 1".chars().take(10).collect();
    let word = SelectRequest { kind: SelectKind::Word, col: 6, row: 4 };
    let sel = resolve_select_request(word, area, &row, 20).unwrap();
    assert_eq!(sel.anchor, (5, 22));
    assert_eq!(sel.head, (7, 22));
    assert!(sel.dragged && sel.finalize && !sel.copied);
    let line = SelectRequest { kind: SelectKind::Line, col: 6, row: 4 };
    let sel = resolve_select_request(line, area, &row, 20).unwrap();
    assert_eq!((sel.anchor, sel.head), ((1, 22), (10, 22)));
    let outside = SelectRequest { kind: SelectKind::Line, col: 6, row: 12 };
    assert!(resolve_select_request(outside, area, &row, 20).is_none());
}

fn selection(anchor: (u16, usize), head: (u16, usize)) -> TextSelection {
    TextSelection { anchor, head, area_width: 12, dragged: true, finalize: true, copied: false }
}

#[test]
fn extraction_cuts_columns_and_trims_line_ends() {
    let cells = |s: &str| -> Vec<String> { s.chars().map(|c| c.to_string()).collect() };
    let grid = vec![cells("hello     "), cells("wide      "), cells("world!    ")];
    let area = Rect::new(0, 0, 12, 5);
    let text = extract_selection_text(&grid, (3, 0), (5, 2), area);
    assert_eq!(text, "llo\nwide\nworld");
    assert_eq!(copy_span((3, 0), (5, 2)), 3);
    assert_eq!(copy_span((3, 0), (5, 99_999)), 2000);
}

#[test]
fn a_finished_selection_is_copied_once() {
    let area = Some(Rect::new(0, 0, 12, 5));
    let sel = selection((3, 0), (5, 2));
    assert!(matches!(selection_step(Some(sel), area), SelectionStep::Copy));
    let copied = after_extraction(sel, "text").unwrap();
    assert!(copied.copied && !copied.finalize);
    assert!(!matches!(selection_step(Some(copied), area), SelectionStep::Copy));
    assert!(after_extraction(sel, "  ").is_none());
}

#[test]
fn highlight_follows_the_scroll_offset() {
    let area = Rect::new(0, 0, 12, 4);
    let screen = Rect::new(0, 0, 80, 24);
    let sel = selection((3, 10), (5, 11));
    assert_eq!(visible_selection(&sel, area, 9, screen), vec![(1, 3, 11), (2, 1, 6)]);
    assert_eq!(visible_selection(&sel, area, 100, screen), Vec::new());
}

#[test]
fn one_cell_jitter_is_not_a_selection_normal() {
    assert!(!selection_started((10, 5), (10, 5)));
    assert!(!selection_started((10, 5), (11, 5)));
    assert!(!selection_started((10, 5), (9, 5)));
}

#[test]
fn real_drag_starts_selection_normal() {
    assert!(selection_started((10, 5), (12, 5)));
    assert!(selection_started((10, 5), (8, 5)));
    assert!(selection_started((10, 5), (10, 6)));
    assert!(selection_started((10, 5), (10, 4)));
}

fn idle_gesture(scroll_offset: usize) -> Gesture {
    Gesture {
        scroll: Scroller {
            scroll_offset,
            total_lines: 100,
            viewport_height: 20,
            follow_bottom: false,
            scroll_velocity: 0,
        },
        selection: None,
        autoscroll: None,
        last_click: None,
        select_request: None,
    }
}

fn report(kind: MouseKind, col: u16, row: u16, ms: u128) -> MouseReport {
    MouseReport {
        kind,
        col,
        row,
        now: at_ms(ms),
        messages_area: Some(Rect::new(0, 2, 40, 10)),
        on_tool: false,
        copy_on_select: true,
    }
}

#[test]
fn mouse_wheel_scroll_is_direct_not_kinetic_regression() {
    let mut g = idle_gesture(8);
    g.scroll.scroll_velocity = 42_000;
    assert!(!handle_mouse(&mut g, &report(MouseKind::ScrollUp, 0, 0, 0)));
    assert_eq!(g.scroll.scroll_offset, 5);
    assert_eq!(g.scroll.scroll_velocity, 0);
    g.scroll.scroll_velocity = -42_000;
    assert!(!handle_mouse(&mut g, &report(MouseKind::ScrollDown, 0, 0, 0)));
    assert_eq!(g.scroll.scroll_offset, 8);
    assert_eq!(g.scroll.scroll_velocity, 0);
}

#[test]
fn scrolling_stops_at_the_ends() {
    let mut g = idle_gesture(1);
    g.scroll.scroll_up(3);
    assert_eq!(g.scroll.scroll_offset, 0);
    assert!(!g.scroll.follow_bottom);
    g.scroll.scroll_offset = 79;
    g.scroll.scroll_down(3);
    assert_eq!(g.scroll.scroll_offset, 80);
    assert!(g.scroll.follow_bottom);
}

#[test]
fn toast_border_click_does_not_underflow_regression() {
    let place = |row: u16, toast_count: usize| ClickPlace {
        col: 45,
        row,
        toasts_area: Some(Rect::new(40, 10, 30, 4)),
        toast_count,
        input_area: None,
        sidebar_area: None,
        sessions_here: 0,
        sessions_elsewhere: 0,
    };
    let mut toasts = vec!["boom"];
    match handle_left_click(&place(10, toasts.len()), &Vec::new()) {
        ClickAction::DismissToast(i) => {
            toasts.remove(i);
        }
        _ => {}
    }
    assert_eq!(toasts.len(), 1, "clicking the toast border must not dismiss or panic");
    match handle_left_click(&place(11, toasts.len()), &Vec::new()) {
        ClickAction::DismissToast(i) => {
            toasts.remove(i);
        }
        _ => {}
    }
    assert!(toasts.is_empty(), "clicking a toast body row should dismiss it");
}

#[test]
fn newest_toast_stands_on_top() {
    assert_eq!(toast_row_at(Some(Rect::new(40, 10, 30, 5)), 45, 12), Some(1));
    assert_eq!(toast_row_at(Some(Rect::new(40, 10, 30, 5)), 45, 14), None);
    assert_eq!(toast_row_at(None, 45, 12), None);
    assert_eq!(toast_at_row(3, 0), Some(2));
    assert_eq!(toast_at_row(3, 2), Some(0));
    assert_eq!(toast_at_row(3, 3), None);
}

#[test]
fn drag_autoscroll_overrun_detects_edges_normal() {
    let area = Some(Rect::new(0, 2, 40, 10));
    assert_eq!(drag_autoscroll_overrun(area, 0, 2), None);
    assert_eq!(drag_autoscroll_overrun(area, 0, 6), None);
    assert_eq!(drag_autoscroll_overrun(area, 0, 11), None);
    assert_eq!(drag_autoscroll_overrun(area, 0, 1), Some(-1));
    assert_eq!(drag_autoscroll_overrun(area, 0, 0), Some(-2));
    assert_eq!(drag_autoscroll_overrun(area, 0, 12), Some(1));
    assert_eq!(drag_autoscroll_overrun(area, 0, 14), Some(3));
}

#[test]
fn drag_autoscroll_overrun_top_edge_scrolls_when_transcript_starts_at_zero_regression() {
    let area = Some(Rect::new(0, 0, 40, 10));
    assert_eq!(drag_autoscroll_overrun(area, 0, 0), None);
    assert_eq!(drag_autoscroll_overrun(area, 8, 0), Some(-1));
}

fn drag_gesture(dragged: bool) -> Gesture {
    let mut g = idle_gesture(0);
    g.selection = Some(TextSelection {
        anchor: (1, 5),
        head: (5, 5),
        area_width: 40,
        dragged,
        finalize: false,
        copied: false,
    });
    g
}

#[test]
fn drag_autoscroll_clears_when_cursor_reenters_viewport_normal() {
    let mut g = drag_gesture(true);
    g.autoscroll = Some(3);
    handle_mouse(&mut g, &report(MouseKind::DragLeft, 5, 6, 0));
    assert_eq!(g.autoscroll, None, "in-viewport drag must clear autoscroll");
}

#[test]
fn drag_autoscroll_not_armed_for_undragged_selection_normal() {
    let area = Some(Rect::new(0, 2, 40, 10));
    let g = drag_gesture(false);
    let armed = g.selection.filter(|s| s.dragged).and_then(|_| drag_autoscroll_overrun(area, 0, 0));
    assert_eq!(armed, None, "an un-dragged selection must not autoscroll");
}

#[test]
fn press_drag_release_selects() {
    let mut g = idle_gesture(30);
    assert!(!handle_mouse(&mut g, &report(MouseKind::DownLeft, 4, 5, 0)));
    assert_eq!(g.selection.unwrap().anchor, (4, 33));
    assert!(!handle_mouse(&mut g, &report(MouseKind::DragLeft, 9, 12, 10)));
    assert!(g.selection.unwrap().dragged);
    assert_eq!(g.selection.unwrap().head, (9, 40));
    assert_eq!(g.autoscroll, Some(1));
    assert!(!handle_mouse(&mut g, &report(MouseKind::UpLeft, 9, 12, 20)));
    assert!(g.selection.unwrap().finalize);
    assert_eq!(g.autoscroll, None);
}

#[test]
fn press_and_release_is_a_click() {
    let mut g = idle_gesture(0);
    assert!(!handle_mouse(&mut g, &report(MouseKind::DownLeft, 4, 5, 0)));
    assert!(!handle_mouse(&mut g, &report(MouseKind::DragLeft, 5, 5, 5)));
    assert!(handle_mouse(&mut g, &report(MouseKind::UpLeft, 5, 5, 10)));
    assert!(g.selection.is_none());
}

#[test]
fn clicks_in_a_row_select_word_then_line() {
    let mut g = idle_gesture(0);
    handle_mouse(&mut g, &report(MouseKind::DownLeft, 4, 5, 0));
    assert!(g.select_request.is_none());
    handle_mouse(&mut g, &report(MouseKind::DownLeft, 5, 5, 499));
    assert_eq!(g.select_request.unwrap().kind, SelectKind::Word);
    handle_mouse(&mut g, &report(MouseKind::DownLeft, 5, 4, 900));
    assert_eq!(g.select_request.unwrap().kind, SelectKind::Line);
    g.select_request = None;
    handle_mouse(&mut g, &report(MouseKind::DownLeft, 5, 4, 1400));
    assert!(g.select_request.is_none(), "half a second later it is a new click");
    handle_mouse(&mut g, &report(MouseKind::DownLeft, 9, 4, 1500));
    assert!(g.select_request.is_none(), "four columns away it is a new click");
}

#[test]
fn a_tool_keeps_its_own_double_click() {
    let mut g = idle_gesture(0);
    handle_mouse(&mut g, &report(MouseKind::DownLeft, 4, 5, 0));
    let mut second = report(MouseKind::DownLeft, 4, 5, 100);
    second.on_tool = true;
    handle_mouse(&mut g, &second);
    assert!(g.select_request.is_none());
    assert!(g.selection.is_some());
}

#[test]
fn without_copy_on_select_a_press_is_a_click() {
    let mut g = idle_gesture(0);
    let mut press = report(MouseKind::DownLeft, 4, 5, 0);
    press.copy_on_select = false;
    assert!(handle_mouse(&mut g, &press));
    assert!(g.selection.is_none());
    assert!(handle_mouse(&mut g, &report(MouseKind::DownLeft, 50, 5, 0)), "outside the transcript too");
}

#[test]
fn content_lines_do_not_move_with_the_screen() {
    let area = Some(Rect::new(0, 2, 40, 10));
    assert_eq!(selection_content_line(area, 30, 5), 33);
    assert_eq!(selection_content_line(area, 30, 1), 30);
    assert_eq!(selection_content_line(None, 30, 5), 35);
}

#[test]
fn sidebar_rows_skip_headings() {
    assert_eq!(session_at_row(2, 3, 0), None);
    assert_eq!(session_at_row(2, 3, 1), Some(0));
    assert_eq!(session_at_row(2, 3, 2), Some(1));
    assert_eq!(session_at_row(2, 3, 3), None);
    assert_eq!(session_at_row(2, 3, 4), Some(2));
    assert_eq!(session_at_row(2, 3, 6), Some(4));
    assert_eq!(session_at_row(2, 3, 7), None);
    assert_eq!(session_at_row(0, 1, 1), Some(0));
}

#[test]
fn clicks_open_sessions_and_copy_the_input() {
    let place = |col: u16, row: u16| ClickPlace {
        col,
        row,
        toasts_area: None,
        toast_count: 0,
        input_area: Some(Rect::new(20, 20, 40, 3)),
        sidebar_area: Some(Rect::new(0, 0, 20, 24)),
        sessions_here: 1,
        sessions_elsewhere: 1,
    };
    let typed = vec!["a".to_owned(), "b".to_owned()];
    assert!(matches!(handle_left_click(&place(3, 2), &typed), ClickAction::OpenSession(0)));
    assert!(matches!(handle_left_click(&place(3, 4), &typed), ClickAction::OpenSession(1)));
    assert!(matches!(handle_left_click(&place(3, 3), &typed), ClickAction::Transcript));
    match handle_left_click(&place(25, 21), &typed) {
        ClickAction::CopyInput(text) => assert_eq!(text, "a\nb"),
        _ => panic!("the input is copied"),
    }
    let blank = vec![" ".to_owned(), "\u{2003}".to_owned()];
    assert!(matches!(handle_left_click(&place(25, 21), &blank), ClickAction::Nothing));
    assert!(matches!(handle_left_click(&place(70, 10), &typed), ClickAction::Transcript));
}

fn shell_call(id: &str, command: &str) -> ToolCall {
    ToolCall {
        id: id.to_owned(),
        kind: ToolKind::Bash,
        status: ToolStatus::Completed,
        input: ToolInput::Bash { command: command.to_owned() },
        output: ToolOutput::Text("ok".to_owned()),
        display: ToolDisplayState::default(),
        elapsed_ms: None,
        started_at: None,
        thought_signature: None,
    }
}

fn shown(messages: &Vec<ChatMessage>) -> ToolDisplayState {
    match &messages[0].parts[1] {
        MessagePart::Tool(t) => t.display,
        _ => panic!("a tool call"),
    }
}

fn shell_messages() -> Vec<ChatMessage> {
    vec![ChatMessage::assistant_parts(vec![
        MessagePart::Text("running".to_owned()),
        MessagePart::Tool(shell_call("t1", "cargo test")),
    ])]
}

#[test]
fn clicks_on_a_tool_expand_and_pin() {
    let mut messages = shell_messages();
    let mut last: Option<ToolClick> = None;
    let hit = Some("t1".to_owned());
    assert!(matches!(click_tool(&mut messages, &mut last, &None, &hit, at_ms(0)), ToolAction::Toggled));
    assert!(shown(&messages).expanded && !shown(&messages).pinned);
    click_tool(&mut messages, &mut last, &None, &hit, at_ms(349));
    assert!(shown(&messages).expanded && shown(&messages).pinned);
    click_tool(&mut messages, &mut last, &None, &hit, at_ms(349 + 350));
    assert!(!shown(&messages).expanded && shown(&messages).pinned);
    assert_eq!(last.unwrap().id, "t1");
}

#[test]
fn clicks_copy_commands_and_toggle_groups() {
    let mut messages = shell_messages();
    let mut last: Option<ToolClick> = Some(ToolClick { id: "t1".to_owned(), at: at_ms(0) });
    match click_tool(&mut messages, &mut last, &Some("t1".to_owned()), &None, at_ms(1)) {
        ToolAction::CopyCommand(command) => assert_eq!(command, "cargo test"),
        _ => panic!("the command is copied"),
    }
    assert!(last.is_none());
    assert!(matches!(
        click_tool(&mut messages, &mut last, &Some("none".to_owned()), &None, at_ms(1)),
        ToolAction::Nothing
    ));
    match click_tool(&mut messages, &mut last, &None, &Some("group:reads".to_owned()), at_ms(1)) {
        ToolAction::ToggleGroup(key) => assert_eq!(key, "reads"),
        _ => panic!("the group is toggled"),
    }
    assert!(matches!(click_tool(&mut messages, &mut last, &None, &None, at_ms(1)), ToolAction::Nothing));
    assert!(!shown(&messages).expanded);
    assert_eq!(bash_command_for_tool(&messages, "t2"), None);
}

#[test]
fn toggling_a_group_twice_changes_nothing() {
    let mut groups = ExpandedGroups::new();
    assert!(!groups.contains("a"));
    groups.toggle("a".to_owned());
    groups.toggle("b".to_owned());
    assert!(groups.contains("a") && groups.contains("b"));
    groups.toggle("a".to_owned());
    assert!(!groups.contains("a") && groups.contains("b"));
}

#[test]
fn keys_are_typed_or_end_a_recording() {
    assert_eq!(key_route(KeyKind::Press, false, false, false), KeyRoute::Type);
    assert_eq!(key_route(KeyKind::Repeat, true, true, true), KeyRoute::Type);
    assert_eq!(key_route(KeyKind::Release, true, true, true), KeyRoute::EndRecording);
    assert_eq!(key_route(KeyKind::Release, true, true, false), KeyRoute::Ignore);
    assert_eq!(key_route(KeyKind::Release, false, true, true), KeyRoute::Ignore);
}

#[test]
fn focus_is_remembered_twice_a_minute() {
    let first = at_ms(0);
    assert_eq!(handle_focus_gained(None, first), Some(first));
    let soon = first.checked_add(Duration::from_secs(29)).unwrap();
    assert_eq!(handle_focus_gained(Some(first), soon), Some(first));
    let later = first.checked_add(Duration::from_secs(30)).unwrap();
    assert_eq!(handle_focus_gained(Some(first), later), Some(later));
}

fn board() -> PasteBoard {
    PasteBoard { image_counter: 4, paste_counter: 0, pasted_texts: Vec::new() }
}

#[test]
fn short_pastes_stay_editable() {
    let mut b = board();
    assert_eq!(handle_paste(&mut b, false, "hello", &Vec::new(), true), vec!["hello"]);
    assert_eq!(handle_paste(&mut b, false, "", &Vec::new(), true), vec![""]);
    let long = "x\n".repeat(9);
    assert_eq!(handle_paste(&mut b, false, &long, &Vec::new(), false), vec![long]);
    assert_eq!(b.paste_counter, 0);
}

#[test]
fn long_pastes_are_put_away() {
    let mut b = board();
    let lines = "x\n".repeat(9);
    assert_eq!(handle_paste(&mut b, false, &lines, &Vec::new(), true), vec!["[Pasted #1 · 9 lines]"]);
    let chars = "y".repeat(401);
    assert_eq!(handle_paste(&mut b, false, &chars, &Vec::new(), true), vec!["[Pasted #2 · 401 chars]"]);
    assert_eq!(b.pasted_texts[0], ("[Pasted #1 · 9 lines]".to_owned(), lines));
    assert_eq!(b.pasted_texts[1].1, chars);
    assert_eq!(handle_paste(&mut b, false, &"z".repeat(400), &Vec::new(), true).concat(), "z".repeat(400));
}

#[test]
fn images_are_numbered_and_stand_for_their_paths() {
    let mut b = board();
    assert_eq!(handle_paste(&mut b, true, "", &Vec::new(), true), vec!["[Image #5]"]);
    let paths = vec![
        PastedPath { path: "/a.png".to_owned(), readable: true },
        PastedPath { path: "/gone.png".to_owned(), readable: false },
        PastedPath { path: "/b.png".to_owned(), readable: true },
    ];
    let out = handle_paste(&mut b, true, "/a.png /gone.png /b.png /a.png", &paths, true);
    assert_eq!(out, vec!["[Image #6]", "[Image #7] /gone.png [Image #8] [Image #7]"]);
    assert_eq!(b.image_counter, 8);
}
