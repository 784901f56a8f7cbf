use jfc::elicitation::{
    build_form_field_lines, elicitation, form_footer_line, input_on_arrival, render_form_elicitation,
    render_url_elicitation,
    ElicitationInputState, ElicitationKind, PendingElicitation,
};
use jfc::event_loop::PromptRewriteProposal;
use jfc::frame::{
    frame, frame_columns, frame_rows, overlays, FrameState, OpenOverlays, Overlay,
};
use jfc::input_box::{
    cursor_cell, cursor_look, hard_wrap_str, input, input_areas, input_soft_wrapped_lines, input_title,
    input_visual_line_count, visible_rows, CursorLook, InputState, InputTitle, VimMode,
};
use jfc::json::Json;
use jfc::layout::{bash_picker_area, question_area, rewrite_area, teammates_area, Rect};
use jfc::prompt_rewrite::{prompt_rewrite, rewrite_rows};
use jfc::question::{
    clamp_question_rows, focused_preview, preview_columns, question, question_height, question_rows,
    question_title, PendingQuestion, QuestionItem, QuestionOption,
};
use jfc::styled::{Line, Style, Tone};
use jfc::task_detail::split_widget_area;

fn shown(line: &Line) -> String {
    line.spans.iter().map(|s| s.text.as_str()).collect()
}

fn all_shown(lines: &[Line]) -> String {
    lines.iter().map(|l| shown(l) + "\n").collect()
}

fn text(s: &str) -> Json {
    Json::Text(s.to_owned())
}

fn schema() -> Json {
    Json::Object(vec![
        (
            "properties".to_owned(),
            Json::Object(vec![
                (
                    "name".to_owned(),
                    Json::Object(vec![("description".to_owned(), text("who you are"))]),
                ),
                ("size".to_owned(), Json::Object(vec![("type".to_owned(), text("number"))])),
            ]),
        ),
        ("required".to_owned(), Json::List(vec![text("name")])),
    ])
}

#[test]
fn a_form_is_filled_field_by_field() {
    let mut state = ElicitationInputState::from_schema(&schema());
    assert_eq!(state.field_order, vec!["name", "size"]);
    state.type_char('a');
    state.type_char('b');
    state.backspace();
    state.next_field();
    assert_eq!(state.active_field.as_deref(), Some("size"));
    state.backspace();
    state.next_field();
    assert_eq!(state.active_field.as_deref(), Some("name"));
    let json = state.to_json();
    assert_eq!(json.get("name").and_then(|v| v.as_str()), Some("a"));
    assert!(json.get("size").is_none());
}

#[test]
fn a_form_shows_its_fields() {
    let state = ElicitationInputState::from_schema(&schema());
    let rows = all_shown(&build_form_field_lines(&schema(), &state));
    assert_eq!(rows, "* name (string)\n  who you are\n  > ▏\n\n  size (number)\n  > (empty)\n\n");
    let none = all_shown(&build_form_field_lines(&Json::Null, &ElicitationInputState::default()));
    assert_eq!(none, "(no schema provided — press Enter to accept)\n");
    assert_eq!(shown(&form_footer_line()), " Tab next   Enter accept   Esc decline   q cancel");
}

#[test]
fn requests_of_servers_are_shown_one_by_one() {
    let ask = |name: &str| PendingElicitation {
        server_name: name.to_owned(),
        kind: ElicitationKind::Form { message: "who?".to_owned(), schema: schema() },
    };
    let screen = Rect::new(0, 0, 120, 40);
    assert!(elicitation(&Vec::new(), screen).is_none());
    let one = elicitation(&vec![ask("db")], screen).unwrap();
    assert_eq!(one.title, " MCP Input Request · db ");
    assert_eq!(one.area, Rect::new(12, 12, 96, 16));
    let two = elicitation(&vec![ask("db"), ask("web")], screen).unwrap();
    assert_eq!(two.title, " MCP Input Request · db (1  queued) ");
}

#[test]
fn dialogs_share_their_inside_out() {
    let inner = Rect::new(10, 5, 60, 20);
    let form = render_form_elicitation(inner, "who?", &schema(), &ElicitationInputState::default());
    assert_eq!(
        form.areas,
        vec![Rect::new(10, 5, 60, 3), Rect::new(10, 8, 60, 15), Rect::new(10, 23, 60, 2)]
    );
    assert_eq!(form.message.text, "who?");
    let link = render_url_elicitation(inner, "go", "https://example.org");
    assert_eq!(
        link.areas,
        vec![
            Rect::new(10, 5, 60, 3),
            Rect::new(10, 8, 60, 3),
            Rect::new(10, 11, 60, 12),
            Rect::new(10, 23, 60, 2),
        ]
    );
    assert_eq!(link.url.text, "https://example.org");
    assert_eq!(
        rewrite_rows(inner),
        vec![
            Rect::new(10, 5, 60, 14),
            Rect::new(10, 19, 60, 2),
            Rect::new(10, 21, 60, 3),
            Rect::new(10, 24, 60, 1),
        ]
    );
    let (tasks, widgets) = split_widget_area(inner, 3);
    assert_eq!((tasks, widgets), (Rect::new(10, 5, 60, 15), Some(Rect::new(10, 20, 60, 5))));
    assert_eq!(split_widget_area(inner, 0), (inner, None));
}

#[test]
fn parts_stay_inside_where_there_is_no_room() {
    let small = Rect::new(3, 4, 20, 2);
    for part in rewrite_rows(small) {
        assert_eq!((part.x, part.width), (3, 20));
        assert!(part.y >= 4 && part.y + part.height <= 6);
    }
    for column in preview_columns(Rect::new(0, 0, 41, 6)) {
        assert_eq!((column.y, column.height), (0, 6));
        assert!(column.x + column.width <= 41);
    }
}

fn item(options: usize) -> QuestionItem {
    QuestionItem {
        header: "Size".to_owned(),
        question: "How large?".to_owned(),
        options: (0..options)
            .map(|i| QuestionOption {
                label: format!("option {i}"),
                description: String::new(),
                preview: Some(format!("preview {i}")),
            })
            .collect(),
        multi_select: false,
        selected: 1,
        chosen: Vec::new(),
        other_text: String::new(),
        answered: false,
    }
}

#[test]
fn questions_show_options_and_a_preview() {
    let pending = PendingQuestion { items: vec![item(3)], current: 0, editing_other: false };
    let dialog = question(&pending, Rect::new(0, 0, 100, 40));
    assert_eq!(dialog.title, " Size ");
    assert!(dialog.nav.is_none());
    assert!(all_shown(&dialog.options).contains("option 2"));
    assert!(all_shown(&dialog.preview.unwrap()).contains("preview 1"));
    assert_eq!(focused_preview(&item(3)).unwrap(), "preview 1");
    let mut many = item(3);
    many.multi_select = true;
    assert!(focused_preview(&many).is_none());
    many.header = String::new();
    assert_eq!(question_title(&many), " Question ");
}

#[test]
fn questions_take_the_rows_that_they_need() {
    assert_eq!(question_height("short", 40), 1);
    assert_eq!(question_height("one two three four five six", 10), 3);
    assert_eq!(question_height(&"word ".repeat(50), 10), 4);
    assert_eq!(question_height("anything", 0), 1);
    assert_eq!(clamp_question_rows(0, 40), 1);
    assert_eq!(clamp_question_rows(3, 40), 3);
    assert_eq!(clamp_question_rows(9, 40), 4);
    assert_eq!(clamp_question_rows(65_537, 40), 4);
    let pending = PendingQuestion { items: vec![item(2), item(2)], current: 0, editing_other: false };
    assert_eq!(
        question_rows(&pending, Rect::new(0, 0, 40, 20)),
        vec![
            Rect::new(0, 0, 40, 1),
            Rect::new(0, 1, 40, 1),
            Rect::new(0, 2, 40, 17),
            Rect::new(0, 19, 40, 1),
        ]
    );
}

#[test]
fn rewrites_are_proposed_with_a_reason() {
    let proposal = PromptRewriteProposal {
        original: "fix".to_owned(),
        rewrite: "fix the parser".to_owned(),
        rationale: "clearer".to_owned(),
        original_intent: "fix".to_owned(),
    };
    let dialog = prompt_rewrite(&proposal, Rect::new(0, 0, 100, 40));
    assert!(all_shown(&dialog.rewrite).contains("fix the parser"));
    assert_eq!(shown(&dialog.rationale), "Why: clearer");
    assert!(all_shown(&dialog.original).contains("Your original:"));
}

#[test]
fn dialogs_stand_on_the_screen() {
    let screen = Rect::new(0, 0, 100, 40);
    for area in [
        bash_picker_area(screen),
        question_area(screen, false),
        question_area(screen, true),
        rewrite_area(screen),
        teammates_area(screen),
    ] {
        assert!(area.x + area.width <= 100 && area.y + area.height <= 40);
        assert!(area.width > 0 && area.height > 0);
    }
    assert!(Rect::new(u16::MAX, 0, 9, 1).width == 0);
}

fn quiet_frame() -> FrameState {
    FrameState {
        width: 100,
        height: 40,
        in_task_view: false,
        input_lines: 1,
        is_streaming: false,
        compacting: false,
        pipeline_busy: false,
        turn_started: false,
        any_alive_agent: false,
        open_tasks: 0,
        recently_done: 0,
        new_diagnostics: 0,
        session_sidebar: false,
        info_sidebar: false,
    }
}

#[test]
fn the_frame_shares_the_screen_out() {
    let plan = frame(&quiet_frame());
    let screen = Rect::new(0, 0, 100, 40);
    let rows = frame_rows(&plan, screen);
    assert_eq!(rows.len(), 8);
    let mut next = 0;
    for row in &rows {
        assert_eq!((row.x, row.width, row.y), (0, 100, next));
        next += row.height;
    }
    assert_eq!(next, 40);
    let columns = frame_columns(&plan, rows[1]);
    assert_eq!(columns.messages, rows[1]);
    let mut side = quiet_frame();
    side.session_sidebar = true;
    let plan = frame(&side);
    let columns = frame_columns(&plan, Rect::new(0, 0, 100, 30));
    let left = columns.left_sidebar.unwrap();
    assert_eq!((left.x, left.width), (0, plan.left_sidebar));
    assert_eq!(columns.messages.x, left.width);
    assert_eq!(columns.messages.width, 100 - left.width);
    assert!(columns.right_sidebar.is_none());
}

fn nothing_open() -> OpenOverlays {
    OpenOverlays {
        palette: false,
        theme_picker: false,
        model_picker: false,
        session_picker: false,
        bash_picker: false,
        task_panel: false,
        teammates: false,
        toasts: false,
        mention: false,
        mention_candidates: false,
        diagnostic_panel: false,
        has_diagnostics: false,
        help: false,
        transcript_search: false,
        prompt_search: false,
        slash_prefix: false,
        approval: false,
        question: false,
        elicitation: false,
        rewrite_proposal: false,
    }
}

#[test]
fn what_asks_for_an_answer_is_on_top() {
    assert!(overlays(&nothing_open()).is_empty());
    let mut open = nothing_open();
    open.toasts = true;
    open.approval = true;
    open.rewrite_proposal = true;
    open.diagnostic_panel = true;
    let drawn = overlays(&open);
    assert_eq!(drawn.last(), Some(&Overlay::RewriteProposal));
    assert!(drawn.contains(&Overlay::Approval));
    assert!(!drawn.contains(&Overlay::Diagnostics));
}

#[test]
fn typed_text_is_wrapped_with_the_cursor() {
    assert_eq!(hard_wrap_str("abcdef", 4), vec!["abcd", "ef"]);
    assert_eq!(hard_wrap_str("日本語", 4), vec!["日本", "語"]);
    let lines = vec!["abcdef".to_owned(), "g".to_owned()];
    let (rows, row, col) = input_soft_wrapped_lines(&lines, (0, 5), false, 4);
    assert_eq!(rows, vec!["abcd", "ef", "g"]);
    assert_eq!((row, col), (1, 1));
    assert_eq!(input_visual_line_count(&lines, (0, 5), false, 4), 3);
}

#[test]
fn the_cursor_stays_in_view() {
    assert_eq!(visible_rows(10, 9, 3), (7, 10));
    assert_eq!(visible_rows(2, 0, 3), (0, 2));
    assert_eq!(cursor_cell(Rect::new(5, 10, 20, 3), 9, 4, 7), (9, 12));
    assert!(matches!(cursor_look(0, 3, false, false, false, false), CursorLook::Hidden));
    assert!(matches!(cursor_look(20, 3, true, false, false, false), CursorLook::Voice));
    assert!(matches!(cursor_look(20, 3, true, true, false, false), CursorLook::Terminal { .. }));
    let areas = input_areas(Rect::new(0, 0, 40, 5), false, "> ");
    assert_eq!(areas.content, Rect::new(0, 1, 40, 3));
    assert_eq!(areas.text.x + areas.text.width, 40);
    assert_eq!(input_title(&InputTitle::Editing(3)).text, " editing #3 · Esc to cancel ");
}

#[test]
fn the_input_begins_anew_when_a_request_arrives() {
    let form = PendingElicitation {
        server_name: "db".to_owned(),
        kind: ElicitationKind::Form { message: "who?".to_owned(), schema: schema() },
    };
    let pending = vec![form];
    assert!(input_on_arrival(1, &pending).is_none());
    let begun = input_on_arrival(0, &pending).unwrap();
    assert_eq!(begun.active_field, ElicitationInputState::from_schema(&schema()).active_field);
    let url = PendingElicitation {
        server_name: "db".to_owned(),
        kind: ElicitationKind::Url { message: "go".to_owned(), url: "https://x".to_owned() },
    };
    assert!(input_on_arrival(0, &vec![url]).unwrap().active_field.is_none());
}

fn typed_input(lines: &[&str], cursor: (usize, usize)) -> InputState {
    InputState {
        editing: None,
        vim: None,
        prompt: "›".to_owned(),
        invert_prompt: false,
        is_streaming: false,
        recording: false,
        reduced_motion: false,
        has_queued_prompts: false,
        lines: lines.iter().map(|l| l.to_string()).collect(),
        cursor,
    }
}

#[test]
fn the_input_stands_in_its_frame() {
    let screen = Rect::new(0, 0, 40, 20);
    let area = Rect::new(0, 10, 40, 5);
    let view = input(&typed_input(&["hello", "you"], (1, 2)), area, screen);
    assert!(view.title.is_none());
    assert_eq!(view.border, Tone::PromptBorder);
    assert_eq!(view.areas.content, Rect::new(1, 11, 38, 3));
    assert_eq!(view.areas.text, Rect::new(3, 11, 36, 3));
    assert_eq!((view.prompt_cell, view.gap_cell), (Some((1, 11)), Some((2, 11))));
    assert_eq!(view.prompt.style, Style::fg(Tone::Accent).on(Tone::Background).bold());
    assert_eq!(view.rows, vec!["hello".to_owned(), "you".to_owned()]);
    assert_eq!(view.cursor, (5, 12));
    assert_eq!(view.look, CursorLook::Terminal { tinted: true });
}

#[test]
fn an_edit_shows_in_the_frame() {
    let screen = Rect::new(0, 0, 40, 20);
    let area = Rect::new(0, 10, 40, 5);
    let mut state = typed_input(&["x"], (0, 1));
    state.editing = Some(2);
    state.vim = Some((VimMode::Insert, "INSERT".to_owned()));
    let view = input(&state, area, screen);
    assert_eq!(view.title.unwrap().text, " editing #2 · Esc to cancel ");
    assert_eq!((view.prompt.text.as_str(), view.border), ("✎", Tone::Warning));
    assert_eq!(view.areas.content, Rect::new(2, 11, 37, 4));
    assert_eq!(view.look, CursorLook::Terminal { tinted: false });
    state.editing = None;
    state.is_streaming = true;
    let view = input(&state, area, screen);
    let title = view.title.unwrap();
    assert_eq!((title.text.as_str(), title.style), (" INSERT ", Style::fg(Tone::Success).bold()));
    assert_eq!(view.border, Tone::PromptBorderShimmer);
}

#[test]
fn a_long_text_scrolls_to_the_cursor() {
    let screen = Rect::new(0, 0, 40, 20);
    let mut state = typed_input(&["a", "b", "c", "d"], (3, 1));
    let view = input(&state, Rect::new(0, 10, 40, 4), screen);
    assert_eq!(view.rows, vec!["c".to_owned(), "d".to_owned()]);
    assert_eq!(view.cursor, (4, 12));
    state.recording = true;
    assert_eq!(input(&state, Rect::new(0, 10, 40, 4), screen).look, CursorLook::Voice);
    assert_eq!(input(&state, Rect::new(0, 10, 2, 4), screen).look, CursorLook::Hidden);
    assert!(input(&state, Rect::new(0, 30, 40, 4), screen).prompt_cell.is_none());
}

#[test]
fn wrapped_rows_fit_and_lose_nothing() {
    let rows = hard_wrap_str("ab漢字cd", 3);
    assert_eq!(rows.concat(), "ab漢字cd");
    assert_eq!(rows, vec!["ab".to_owned(), "漢".to_owned(), "字c".to_owned(), "d".to_owned()]);
}
