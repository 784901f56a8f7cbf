//! The dialog that asks the user to choose.
//!
//! It shows a bar of questions where there is more than one, the question, its
//! options with a free-text row behind them, a preview of the option in focus,
//! and the keys.
use vstd::prelude::*;

use crate::layout::{clamped, is_split, question_area, split_area, Axis, Part, Rect};
use crate::pinned::Row;
use crate::showing::{lemma_has_in_sum, lemma_joined_has, lemma_row_has, row_text};
use crate::slicing::{group_texts, has_prefix, has_text, join, joined, lines, lines_of, opt_text, texts, trim, trimmed};
use crate::styled::{group_rows, line1, row1, rows, span, spans_of, Line, Span, Style, Tone};
use crate::text::{cat2, cat3, cat4, char_count, count_text, decimal};
use ratatui::widgets::{Paragraph, Wrap};

verus! {

broadcast use {group_texts, group_rows};

/// One option of a question.
#[derive(Debug)]
pub struct QuestionOption {
    pub label: String,
    pub description: String,
    pub preview: Option<String>,
}

/// One question.
#[derive(Debug)]
pub struct QuestionItem {
    pub header: String,
    pub question: String,
    pub options: Vec<QuestionOption>,
    /// More than one option may be chosen.
    pub multi_select: bool,
    /// The row in focus. The one behind the options is for free text.
    pub selected: usize,
    /// The rows that have been chosen.
    pub chosen: Vec<usize>,
    pub other_text: String,
    pub answered: bool,
}

/// The questions that wait for the user.
#[derive(Debug)]
pub struct PendingQuestion {
    pub items: Vec<QuestionItem>,
    pub current: usize,
    /// The user is typing into the free-text row.
    pub editing_other: bool,
}

// ── the question ────────────────────────────────────────────────────────

/// The name of what `Paragraph::line_count` returns for a text that wraps at
/// words and drops the space at the start of a row.
pub uninterp spec fn prose_rows(text: Seq<char>, width: u16) -> usize;

/// `Paragraph::line_count` of a text that wraps at words and drops the space at
/// the start of a row: how many rows the text takes in `width` columns. It adds
/// up columns in sixteen bits, fewer than four times the width together, so the
/// width is bounded.
#[verifier::external_body]
fn prose_row_count(text: &str, width: u16) -> (r: usize)
    requires
        width * 4 <= u16::MAX,
    ensures
        r == prose_rows(text@, width),
{
    Paragraph::new(text).wrap(Wrap { trim: true }).line_count(width)
}

/// Rows for the question: one to four.
pub open spec fn height_for(count: nat, width: nat) -> int {
    if width == 0 {
        1
    } else {
        clamped(count as int, 1, 4)
    }
}

/// Rows for a question whose text takes `count` rows.
pub fn clamp_question_rows(count: usize, width: u16) -> (r: u16)
    ensures
        r == height_for(count as nat, width as nat),
{
    if width == 0 || count == 0 {
        1
    } else if count < 4 {
        count as u16
    } else {
        4
    }
}

/// Rows for the question in `width` columns.
pub fn question_height(question: &str, width: u16) -> (r: u16)
    requires
        width * 4 <= u16::MAX,
    ensures
        r == height_for(prose_rows(question@, width) as nat, width as nat),
{
    clamp_question_rows(prose_row_count(question, width), width)
}

/// The title of the dialog.
pub open spec fn title_of(header: Seq<char>) -> Seq<char> {
    if header.len() == 0 {
        " Question "@
    } else {
        " "@ + header + " "@
    }
}

/// The title of the dialog.
pub fn question_title(item: &QuestionItem) -> (r: String)
    ensures
        r@ == title_of(item.header@),
{
    if char_count(item.header.as_str()) == 0 {
        " Question ".to_owned()
    } else {
        cat3(" ", item.header.as_str(), " ")
    }
}

/// The preview that is shown: that of the option in focus, where only one may
/// be chosen.
pub open spec fn preview_shown(item: QuestionItem) -> Option<Seq<char>> {
    if item.multi_select || item.selected >= item.options@.len() {
        None
    } else {
        opt_text(item.options@[item.selected as int].preview)
    }
}

/// The preview of the option in focus.
pub fn focused_preview(item: &QuestionItem) -> (r: Option<&String>)
    ensures
        match r {
            Some(s) => preview_shown(*item) == Some(s@),
            None => preview_shown(*item) is None,
        },
{
    if item.multi_select || item.selected >= item.options.len() {
        None
    } else {
        match &item.options[item.selected].preview {
            Some(s) => Some(s),
            None => None,
        }
    }
}

// ── the bar ─────────────────────────────────────────────────────────────

/// How a row in focus is drawn.
pub open spec fn highlight_style() -> Style {
    Style::in_tone(Tone::Background).on_tone(Tone::Accent).made_bold()
}

fn highlight() -> (r: Style)
    ensures
        r == highlight_style(),
{
    Style::fg(Tone::Background).on(Tone::Accent).bold()
}

/// One question of the bar and the gap behind it.
pub open spec fn nav_chip(item: QuestionItem, i: nat, current: nat) -> Row {
    let label = if item.header@.len() == 0 {
        "Q"@ + decimal(i + 1)
    } else {
        item.header@
    };
    let mark = if item.answered {
        "✓ "@
    } else {
        ""@
    };
    let style = if i == current {
        highlight_style()
    } else if item.answered {
        Style::in_tone(Tone::TextSecondary)
    } else {
        Style::in_tone(Tone::TextMuted)
    };
    seq![(" "@ + mark + label + " "@, style), (" "@, Style::plain_style())]
}

/// The bar of questions.
pub open spec fn nav_row(items: Seq<QuestionItem>, current: nat) -> Row
    decreases items.len(),
{
    if items.len() == 0 {
        Seq::empty()
    } else {
        nav_row(items.drop_last(), current) + nav_chip(
            items.last(),
            (items.len() - 1) as nat,
            current,
        )
    }
}

/// The bar of questions: the current one stands out, answered ones are ticked.
pub fn nav_bar(pending: &PendingQuestion) -> (r: Line)
    ensures
        r@ == nav_row(pending.items@, pending.current as nat),
{
    let items = &pending.items;
    let mut spans: Vec<Span> = Vec::new();
    let mut i: usize = 0;
    assert(spans_of(spans@) =~= nav_row(items@.take(0), pending.current as nat));
    while i < items.len()
        invariant
            items == pending.items,
            i <= items@.len(),
            spans_of(spans@) == nav_row(items@.take(i as int), pending.current as nat),
        decreases items@.len() - i,
    {
        assert(items@.take(i + 1).drop_last() =~= items@.take(i as int));
        let q = &items[i];
        let label = if char_count(q.header.as_str()) == 0 {
            cat2("Q", count_text(i + 1).as_str())
        } else {
            q.header.clone()
        };
        let mark = if q.answered {
            "✓ "
        } else {
            ""
        };
        let style = if i == pending.current {
            highlight()
        } else if q.answered {
            Style::fg(Tone::TextSecondary)
        } else {
            Style::fg(Tone::TextMuted)
        };
        let ghost before = spans_of(spans@);
        spans.push(span(cat4(" ", mark, label.as_str(), " "), style));
        spans.push(span(" ".to_owned(), Style::plain()));
        assert(spans_of(spans@) =~= before + nav_chip(*q, i as nat, pending.current as nat));
        i += 1;
    }
    assert(items@.take(i as int) =~= items@);
    Line { spans }
}

// ── the options ─────────────────────────────────────────────────────────

/// The mark in front of a row.
pub open spec fn row_mark(item: QuestionItem, row: int, focused: bool) -> Seq<char> {
    if item.multi_select {
        if exists|k: int| 0 <= k < item.chosen@.len() && #[trigger] item.chosen@[k] == row {
            "[x] "@
        } else {
            "[ ] "@
        }
    } else if focused {
        "▶ "@
    } else {
        "  "@
    }
}

fn mark_of(item: &QuestionItem, row: usize, focused: bool) -> (r: &'static str)
    ensures
        r@ == row_mark(*item, row as int, focused),
{
    if item.multi_select {
        let mut k: usize = 0;
        while k < item.chosen.len()
            invariant
                item.multi_select,
                k <= item.chosen@.len(),
                forall|j: int| 0 <= j < k ==> #[trigger] item.chosen@[j] != row,
            decreases item.chosen@.len() - k,
        {
            if item.chosen[k] == row {
                return "[x] ";
            }
            k += 1;
        }
        "[ ] "
    } else if focused {
        "▶ "
    } else {
        "  "
    }
}

/// The row of an option.
pub open spec fn option_row(item: QuestionItem, i: int, editing: bool) -> Row {
    let focused = i == item.selected && !editing;
    let o = item.options@[i];
    let head = (
        row_mark(item, i, focused) + o.label@,
        if focused {
            highlight_style()
        } else {
            Style::in_tone(Tone::TextPrimary)
        },
    );
    if o.description@.len() > 0 {
        seq![head, ("  — "@ + o.description@, Style::in_tone(Tone::TextMuted))]
    } else {
        seq![head]
    }
}

fn option_line(item: &QuestionItem, i: usize, editing: bool) -> (r: Line)
    requires
        i < item.options@.len(),
    ensures
        r@ == option_row(*item, i as int, editing),
{
    let focused = i == item.selected && !editing;
    let o = &item.options[i];
    let mut spans: Vec<Span> = Vec::new();
    let style = if focused {
        highlight()
    } else {
        Style::fg(Tone::TextPrimary)
    };
    spans.push(span(cat2(mark_of(item, i, focused), o.label.as_str()), style));
    if char_count(o.description.as_str()) > 0 {
        spans.push(span(cat2("  — ", o.description.as_str()), Style::fg(Tone::TextMuted)));
    }
    let line = Line { spans };
    assert(line@ =~= option_row(*item, i as int, editing));
    line
}

/// The free-text row.
pub open spec fn other_row(item: QuestionItem, editing: bool) -> Row {
    let at = item.options@.len() as int;
    let focused = item.selected == at;
    let text = if editing {
        "Other: "@ + item.other_text@ + "▏"@
    } else if trimmed(item.other_text@).len() == 0 {
        "Other (type your own)…"@
    } else {
        "Other: "@ + item.other_text@
    };
    let style = if editing {
        Style::in_tone(Tone::Accent).made_bold()
    } else if focused {
        highlight_style()
    } else {
        Style::in_tone(Tone::TextSecondary)
    };
    row1(row_mark(item, at, focused) + text, style)
}

fn other_line(item: &QuestionItem, editing: bool) -> (r: Line)
    ensures
        r@ == other_row(*item, editing),
{
    let at: usize = item.options.len();
    let focused = item.selected == at;
    let text = if editing {
        cat3("Other: ", item.other_text.as_str(), "▏")
    } else if char_count(trim(item.other_text.as_str()).as_str()) == 0 {
        "Other (type your own)…".to_owned()
    } else {
        cat2("Other: ", item.other_text.as_str())
    };
    let style = if editing {
        Style::fg(Tone::Accent).bold()
    } else if focused {
        highlight()
    } else {
        Style::fg(Tone::TextSecondary)
    };
    line1(cat2(mark_of(item, at, focused), text.as_str()), style)
}

/// The options and the free-text row behind them.
pub open spec fn option_rows(item: QuestionItem, editing: bool) -> Seq<Row> {
    Seq::new(item.options@.len(), |i: int| option_row(item, i, editing)).push(other_row(item, editing))
}

/// The options and the free-text row behind them.
pub fn render_options(item: &QuestionItem, editing_other: bool) -> (r: Vec<Line>)
    ensures
        rows(r@) == option_rows(*item, editing_other),
{
    let ghost all = Seq::new(item.options@.len(), |i: int| option_row(*item, i, editing_other));
    let mut out: Vec<Line> = Vec::new();
    let mut i: usize = 0;
    assert(rows(out@) =~= all.take(0));
    while i < item.options.len()
        invariant
            i <= item.options@.len(),
            all == Seq::new(item.options@.len(), |i: int| option_row(*item, i, editing_other)),
            rows(out@) == all.take(i as int),
        decreases item.options@.len() - i,
    {
        out.push(option_line(item, i, editing_other));
        assert(all.take(i + 1) =~= all.take(i as int).push(all[i as int]));
        i += 1;
    }
    assert(all.take(i as int) =~= all);
    out.push(other_line(item, editing_other));
    out
}

/// The rows of a preview.
pub open spec fn preview_rows(preview: Seq<char>) -> Seq<Row> {
    lines_of(preview).map_values(|l: Seq<char>| row1(l, Style::in_tone(Tone::TextPrimary)))
}

/// The rows of a preview, line for line.
pub fn render_preview(preview: &str) -> (r: Vec<Line>)
    ensures
        rows(r@) == preview_rows(preview@),
{
    let ls = lines(preview);
    let ghost all = preview_rows(preview@);
    let mut out: Vec<Line> = Vec::new();
    let mut i: usize = 0;
    assert(rows(out@) =~= all.take(0));
    while i < ls.len()
        invariant
            i <= ls@.len(),
            texts(ls@) == lines_of(preview@),
            all == preview_rows(preview@),
            rows(out@) == all.take(i as int),
        decreases ls@.len() - i,
    {
        assert(texts(ls@)[i as int] == ls@[i as int]@);
        out.push(line1(ls[i].clone(), Style::fg(Tone::TextPrimary)));
        assert(all.take(i + 1) =~= all.take(i as int).push(all[i as int]));
        i += 1;
    }
    assert(texts(ls@).len() == ls@.len());
    assert(all.take(i as int) =~= all);
    out
}

// ── the keys ────────────────────────────────────────────────────────────

/// What the keys do.
pub open spec fn key_parts(multi_select: bool, many: bool) -> Seq<Seq<char>> {
    let choose_keys = if multi_select {
        seq!["↑/↓ move"@, "Space toggle"@, "Enter confirm"@]
    } else {
        seq!["↑/↓ move"@, "Enter select"@]
    };
    let switch_keys = if many {
        seq!["←/→ switch"@]
    } else {
        Seq::empty()
    };
    choose_keys + switch_keys + seq!["Esc cancel"@]
}

/// The line of keys.
pub open spec fn hint_text(pending: PendingQuestion) -> Seq<char> {
    if pending.editing_other {
        "type your answer · Enter confirm · Esc back"@
    } else {
        joined(
            key_parts(
                pending.items@[pending.current as int].multi_select,
                pending.items@.len() > 1,
            ),
            " · "@,
        )
    }
}

/// The line of keys.
pub fn footer_hint(pending: &PendingQuestion) -> (r: Line)
    requires
        pending.current < pending.items@.len(),
    ensures
        r@ == row1(hint_text(*pending), Style::in_tone(Tone::TextMuted)),
{
    let hint = if pending.editing_other {
        "type your answer · Enter confirm · Esc back".to_owned()
    } else {
        let mut parts: Vec<String> = Vec::new();
        parts.push("↑/↓ move".to_owned());
        if pending.items[pending.current].multi_select {
            parts.push("Space toggle".to_owned());
            parts.push("Enter confirm".to_owned());
        } else {
            parts.push("Enter select".to_owned());
        }
        if pending.items.len() > 1 {
            parts.push("←/→ switch".to_owned());
        }
        parts.push("Esc cancel".to_owned());
        assert(texts(parts@) =~= key_parts(
            pending.items@[pending.current as int].multi_select,
            pending.items@.len() > 1,
        ));
        join(&parts, " · ")
    };
    line1(hint, Style::fg(Tone::TextMuted))
}

// ── the dialog ──────────────────────────────────────────────────────────

/// The dialog, ready to be drawn into `area`.
#[derive(Debug)]
pub struct QuestionDialog {
    pub area: Rect,
    pub title: String,
    /// The bar of questions, where there is more than one.
    pub nav: Option<Line>,
    pub question: Line,
    pub options: Vec<Line>,
    pub preview: Option<Vec<Line>>,
    pub footer: Line,
}

/// The dialog that asks the current question.
pub fn question(pending: &PendingQuestion, screen: Rect) -> (r: QuestionDialog)
    requires
        pending.current < pending.items@.len(),
        screen.width * 8 <= u16::MAX,
        screen.height * 7 <= u16::MAX,
    ensures
        ({
            let item = pending.items@[pending.current as int];
            let size = crate::layout::question_size(screen, preview_shown(item) is Some);
            &&& r.area == crate::layout::centred(screen, size.0, size.1)
            &&& r.title@ == title_of(item.header@)
            &&& r.nav is Some <==> pending.items@.len() > 1
            &&& r.nav is Some ==> r.nav->0@ == nav_row(pending.items@, pending.current as nat)
            &&& r.question@ == row1(item.question@, Style::in_tone(Tone::TextPrimary).made_bold())
            &&& rows(r.options@) == option_rows(item, pending.editing_other)
            &&& r.preview is Some <==> preview_shown(item) is Some
            &&& r.preview is Some ==> rows(r.preview->0@) == preview_rows(preview_shown(item)->0)
            &&& r.footer@ == row1(hint_text(*pending), Style::in_tone(Tone::TextMuted))
        }),
{
    let item = &pending.items[pending.current];
    let preview = match focused_preview(item) {
        Some(s) => Some(render_preview(s.as_str())),
        None => None,
    };
    let nav = if pending.items.len() > 1 {
        Some(nav_bar(pending))
    } else {
        None
    };
    QuestionDialog {
        area: question_area(screen, preview.is_some()),
        title: question_title(item),
        nav,
        question: line1(item.question.clone(), Style::fg(Tone::TextPrimary).bold()),
        options: render_options(item, pending.editing_other),
        preview,
        footer: footer_hint(pending),
    }
}

/// What the rows of the dialog ask for: the bar, the question, the options and
/// the keys.
pub open spec fn dialog_parts(many: bool, height: u16) -> Seq<Part> {
    seq![
        Part::Length(
            if many {
                1
            } else {
                0
            },
        ),
        Part::Length(height),
        Part::Min(3),
        Part::Length(1),
    ]
}

/// What the rows of the dialog ask for, with `height` rows for the question.
pub fn question_parts(many: bool, height: u16) -> (r: Vec<Part>)
    ensures
        r@ == dialog_parts(many, height),
{
    let bar: u16 = if many {
        1
    } else {
        0
    };
    vec![Part::Length(bar), Part::Length(height), Part::Min(3), Part::Length(1)]
}

/// Share the inside of the dialog out among its rows.
pub fn question_rows(pending: &PendingQuestion, inner: Rect) -> (r: Vec<Rect>)
    requires
        pending.current < pending.items@.len(),
        inner.fits(),
        inner.width * 4 <= u16::MAX,
    ensures
        is_split(
            r@,
            inner,
            dialog_parts(
                pending.items@.len() > 1,
                height_for(
                    prose_rows(pending.items@[pending.current as int].question@, inner.width) as nat,
                    inner.width as nat,
                ) as u16,
            ),
            Axis::Rows,
        ),
{
    let height: u16 = question_height(pending.items[pending.current].question.as_str(), inner.width);
    split_area(inner, &question_parts(pending.items.len() > 1, height), Axis::Rows)
}

/// Share the rows of the options out between the options and the preview.
pub fn preview_columns(body: Rect) -> (r: Vec<Rect>)
    requires
        body.fits(),
    ensures
        is_split(r@, body, seq![Part::Percentage(45), Part::Percentage(55)], Axis::Columns),
{
    let parts = vec![Part::Percentage(45), Part::Percentage(55)];
    assert(parts@ =~= seq![Part::Percentage(45), Part::Percentage(55)]);
    split_area(body, &parts, Axis::Columns)
}

/// Every option is offered with its label and its description, in its order, and the
/// row for the user's own words comes last and holds what was typed.
pub proof fn law_every_option_is_offered(item: QuestionItem, editing: bool, i: int)
    requires
        0 <= i < item.options@.len(),
    ensures
        option_rows(item, editing).len() == item.options@.len() + 1,
        has_text(row_text(option_rows(item, editing)[i]), item.options@[i].label@),
        item.options@[i].description@.len() > 0 ==> has_text(
            row_text(option_rows(item, editing)[i]),
            item.options@[i].description@,
        ),
        editing || trimmed(item.other_text@).len() > 0 ==> has_text(
            row_text(option_rows(item, editing).last()),
            item.other_text@,
        ),
{
    let all = option_rows(item, editing);
    let row = option_row(item, i, editing);
    assert(all[i] == row);
    let o = item.options@[i];
    let mark = row_mark(item, i, i == item.selected && !editing);
    lemma_has_in_sum(mark, o.label@, o.label@);
    lemma_row_has(row, 0, o.label@);
    if o.description@.len() > 0 {
        lemma_has_in_sum("  — "@, o.description@, o.description@);
        lemma_row_has(row, 1, o.description@);
    }
    let typed = item.other_text@;
    let at = item.options@.len() as int;
    let other = other_row(item, editing);
    let own = row_mark(item, at, item.selected == at);
    lemma_has_in_sum("Other: "@, typed, typed);
    lemma_has_in_sum("Other: "@ + typed, "▏"@, typed);
    lemma_has_in_sum(own, "Other: "@ + typed, typed);
    lemma_has_in_sum(own, "Other: "@ + typed + "▏"@, typed);
    if editing || trimmed(typed).len() > 0 {
        lemma_row_has(other, 0, typed);
    }
}

/// Where one option is chosen, the row in focus bears the pointer, and no other; where
/// several may be, exactly the chosen ones are crossed.
pub proof fn law_choices_are_marked(item: QuestionItem, i: int)
    requires
        0 <= i < item.options@.len(),
    ensures
        !item.multi_select ==> (i == item.selected <==> has_prefix(option_row(item, i, false)[0].0, "▶ "@)),
        item.multi_select ==> ((exists|k: int| 0 <= k < item.chosen@.len() && #[trigger] item.chosen@[k] == i)
            <==> has_prefix(option_row(item, i, false)[0].0, "[x] "@)),
{
    reveal_strlit("▶ ");
    reveal_strlit("  ");
    reveal_strlit("[x] ");
    reveal_strlit("[ ] ");
    let text = option_row(item, i, false)[0].0;
    let mark = row_mark(item, i, i == item.selected);
    assert(text.subrange(0, mark.len() as int) =~= mark);
    if has_prefix(text, "▶ "@) {
        assert(text.subrange(0, 2)[0] == text[0]);
    }
    if has_prefix(text, "[x] "@) {
        assert(text.subrange(0, 4)[1] == text[1]);
    }
    assert("[x] "@[1] != "[ ] "@[1]);
    assert("▶ "@[0] != "  "@[0]);
}

proof fn lemma_nav_row_has(items: Seq<QuestionItem>, current: nat, i: int)
    requires
        0 <= i < items.len(),
    ensures
        nav_row(items, current).contains(nav_chip(items[i], i as nat, current)[0]),
    decreases items.len(),
{
    let front = items.drop_last();
    let before = nav_row(front, current);
    let chip = nav_chip(items[i], i as nat, current)[0];
    if i < front.len() {
        lemma_nav_row_has(front, current, i);
        let k = choose|k: int| 0 <= k < before.len() && before[k] == chip;
        assert(nav_row(items, current)[k] == chip);
    } else {
        assert(nav_row(items, current)[before.len() as int] == chip);
    }
}

/// Every question has its place in the bar: under its header, and ticked once it has an
/// answer.
pub proof fn law_bar_names_every_question(items: Seq<QuestionItem>, current: nat, i: int)
    requires
        0 <= i < items.len(),
    ensures
        items[i].header@.len() > 0 ==> has_text(row_text(nav_row(items, current)), items[i].header@),
        items[i].answered ==> has_text(row_text(nav_row(items, current)), "✓ "@),
        (i == current) == (nav_chip(items[i], i as nat, current)[0].1 == highlight_style()),
{
    lemma_nav_row_has(items, current, i);
    let row = nav_row(items, current);
    let chip = nav_chip(items[i], i as nat, current)[0];
    let k = choose|k: int| 0 <= k < row.len() && row[k] == chip;
    let header = items[i].header@;
    let mark = if items[i].answered {
        "✓ "@
    } else {
        ""@
    };
    if header.len() > 0 {
        lemma_has_in_sum(" "@ + mark, header, header);
        lemma_has_in_sum(" "@ + mark + header, " "@, header);
        lemma_row_has(row, k, header);
    }
    if items[i].answered {
        let label = if header.len() == 0 {
            "Q"@ + decimal((i + 1) as nat)
        } else {
            header
        };
        lemma_has_in_sum(" "@, "✓ "@, "✓ "@);
        lemma_has_in_sum(" "@ + "✓ "@, label, "✓ "@);
        lemma_has_in_sum(" "@ + "✓ "@ + label, " "@, "✓ "@);
        lemma_row_has(row, k, "✓ "@);
    }
}

/// A preview is that of the option in focus, line for line.
pub proof fn law_preview_is_that_of_the_focus(item: QuestionItem, i: int)
    requires
        !item.multi_select,
        item.selected < item.options@.len(),
        item.options@[item.selected as int].preview is Some,
        0 <= i < lines_of(item.options@[item.selected as int].preview->0@).len(),
    ensures
        preview_shown(item) == Some(item.options@[item.selected as int].preview->0@),
        preview_rows(preview_shown(item)->0)[i][0].0 == lines_of(item.options@[item.selected as int].preview->0@)[i],
        preview_rows(preview_shown(item)->0).len() == lines_of(item.options@[item.selected as int].preview->0@).len(),
{
}

/// The keys that do something are named: leaving always, toggling where several options
/// may be chosen, switching where there are several questions.
pub proof fn law_working_keys_are_named(pending: PendingQuestion)
    requires
        pending.current < pending.items@.len(),
        !pending.editing_other,
    ensures
        has_text(hint_text(pending), "Esc cancel"@),
        pending.items@[pending.current as int].multi_select ==> has_text(hint_text(pending), "Space toggle"@),
        !pending.items@[pending.current as int].multi_select ==> has_text(hint_text(pending), "Enter select"@),
        pending.items@.len() > 1 ==> has_text(hint_text(pending), "←/→ switch"@),
{
    let multi = pending.items@[pending.current as int].multi_select;
    let parts = key_parts(multi, pending.items@.len() > 1);
    let last = parts.len() - 1;
    assert(parts[last] == "Esc cancel"@);
    lemma_joined_has(parts, " · "@, last);
    if multi {
        assert(parts[1] == "Space toggle"@);
    } else {
        assert(parts[1] == "Enter select"@);
    }
    lemma_joined_has(parts, " · "@, 1);
    if pending.items@.len() > 1 {
        assert(parts[last - 1] == "←/→ switch"@);
        lemma_joined_has(parts, " · "@, last - 1);
    }
}

/// Prose takes as many rows as it needs, from one to four.
pub proof fn law_prose_takes_one_to_four_rows(count: nat, width: nat)
    ensures
        1 <= height_for(count, width) <= 4,
        width > 0 && 1 <= count <= 4 ==> height_for(count, width) == count,
        width > 0 && count > 4 ==> height_for(count, width) == 4,
{
}

} // verus!
