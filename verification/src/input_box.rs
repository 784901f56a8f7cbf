//! The input: wrapping what is typed, and where the prompt, the text and the
//! cursor stand.
use vstd::prelude::*;

use crate::fitting::{cell_width, char_cells_shown, shown_cell_width, text_columns};
use crate::layout::{minus, Rect};
use crate::slicing::{group_texts, texts};
use crate::styled::{span, Span, Style, Tone};
use crate::text::{cat3, char_count, chars_of, count_text, decimal};

verus! {

broadcast use group_texts;

// ── wrapping ────────────────────────────────────────────────────────────

/// A line as far as it has been wrapped: the rows that are full, the row that
/// is begun, and its columns. A character that takes no column never begins a
/// row.
pub open spec fn wrap_state(s: Seq<char>, width: nat) -> (Seq<Seq<char>>, Seq<char>, nat)
    decreases s.len(),
{
    if s.len() == 0 {
        (Seq::empty(), Seq::empty(), 0)
    } else {
        let (full, begun, col) = wrap_state(s.drop_last(), width);
        let w = char_cells_shown(s.last()) as nat;
        if w > 0 && col + w > width {
            (full.push(begun), seq![s.last()], w)
        } else {
            (full, begun.push(s.last()), col + w)
        }
    }
}

/// The rows of a line in `width` columns.
pub open spec fn hard_wrapped(s: Seq<char>, width: nat) -> Seq<Seq<char>> {
    let (full, begun, col) = wrap_state(s, width);
    full.push(begun)
}

fn wrap_chars(cs: &Vec<char>, n: usize, width: usize) -> (r: (Vec<String>, String, usize))
    requires
        n <= cs@.len(),
    ensures
        (texts(r.0@), r.1@, r.2 as nat) == wrap_state(cs@.take(n as int), width as nat),
{
    let mut full: Vec<String> = Vec::new();
    let mut begun = String::new();
    let mut col: usize = 0;
    let mut i: usize = 0;
    assert(begun@ =~= Seq::<char>::empty());
    assert(cs@.take(0) =~= Seq::<char>::empty());
    while i < n
        invariant
            i <= n <= cs@.len(),
            (texts(full@), begun@, col as nat) == wrap_state(cs@.take(i as int), width as nat),
        decreases n - i,
    {
        assert(cs@.take(i + 1).drop_last() =~= cs@.take(i as int));
        assert(cs@.take(i + 1).last() == cs@[i as int]);
        let w: usize = shown_cell_width(cs[i]);
        if w > 0 && col as u128 + w as u128 > width as u128 {
            full.push(begun);
            begun = String::new();
            begun.push(cs[i]);
            assert(begun@ =~= seq![cs@[i as int]]);
            col = w;
        } else {
            begun.push(cs[i]);
            col = col + w;
        }
        i += 1;
    }
    (full, begun, col)
}

/// Wrap a line into rows of `width` columns.
pub fn hard_wrap_str(line: &str, width: usize) -> (r: Vec<String>)
    ensures
        texts(r@) == hard_wrapped(line@, width as nat),
{
    let cs = chars_of(line);
    let (full, begun, _col) = wrap_chars(&cs, cs.len(), width);
    assert(cs@.take(cs@.len() as int) =~= line@);
    let mut out = full;
    out.push(begun);
    out
}

proof fn lemma_prefix_has_fewer_rows(s: Seq<char>, n: int, width: nat)
    requires
        0 <= n <= s.len(),
    ensures
        wrap_state(s.take(n), width).0.len() <= wrap_state(s, width).0.len(),
    decreases s.len(),
{
    if n < s.len() {
        lemma_prefix_has_fewer_rows(s.drop_last(), n, width);
        assert(s.drop_last().take(n) =~= s.take(n));
    } else {
        assert(s.take(n) =~= s);
    }
}

/// All characters of `rows`, one row after the other.
pub open spec fn glued(rows: Seq<Seq<char>>) -> Seq<char>
    decreases rows.len(),
{
    if rows.len() == 0 {
        Seq::empty()
    } else {
        glued(rows.drop_last()) + rows.last()
    }
}

/// Wrapping loses nothing and adds nothing.
pub proof fn law_wrapping_keeps_the_text(s: Seq<char>, width: nat)
    ensures
        glued(hard_wrapped(s, width)) == s,
    decreases s.len(),
{
    let (full, begun, col) = wrap_state(s, width);
    assert(full.push(begun).drop_last() =~= full);
    if s.len() > 0 {
        law_wrapping_keeps_the_text(s.drop_last(), width);
        let (f, b, c) = wrap_state(s.drop_last(), width);
        assert(f.push(b).drop_last() =~= f);
        assert(glued(f.push(b)) == glued(f) + b);
        let w = char_cells_shown(s.last()) as nat;
        if w > 0 && c + w > width {
            assert(glued(full) == glued(f) + b);
            assert(glued(f) + b + seq![s.last()] =~= s);
        } else {
            assert(glued(f) + b.push(s.last()) =~= (glued(f) + b).push(s.last()));
            assert((glued(f) + b).push(s.last()) =~= s);
        }
    } else {
        assert(glued(full) + begun =~= s);
    }
}

/// The columns of a row.
pub open spec fn row_columns(row: Seq<char>) -> nat
    decreases row.len(),
{
    if row.len() == 0 {
        0
    } else {
        row_columns(row.drop_last()) + char_cells_shown(row.last()) as nat
    }
}

/// The row fits; only a character that is wider than the room there is makes an
/// exception.
pub open spec fn row_fits(row: Seq<char>, width: nat) -> bool {
    row_columns(row) <= width || (row.len() > 0 && char_cells_shown(row[0]) > width)
}

proof fn lemma_wrapped_rows_fit(s: Seq<char>, width: nat)
    ensures
        ({
            let (full, begun, col) = wrap_state(s, width);
            &&& col == row_columns(begun)
            &&& row_fits(begun, width)
            &&& forall|i: int| 0 <= i < full.len() ==> row_fits(#[trigger] full[i], width)
        }),
    decreases s.len(),
{
    if s.len() > 0 {
        lemma_wrapped_rows_fit(s.drop_last(), width);
        let (full, begun, col) = wrap_state(s.drop_last(), width);
        let c = s.last();
        assert(seq![c].drop_last() =~= Seq::<char>::empty());
        assert(row_columns(seq![c]) == row_columns(seq![c].drop_last()) + char_cells_shown(c) as nat);
        assert(begun.push(c).drop_last() =~= begun);
    }
}

/// Every row fits into the room there is, unless one character alone is too
/// wide for it.
pub proof fn law_wrapped_rows_fit(s: Seq<char>, width: nat)
    ensures
        forall|i: int| 0 <= i < hard_wrapped(s, width).len() ==> row_fits(
            #[trigger] hard_wrapped(s, width)[i],
            width,
        ),
{
    lemma_wrapped_rows_fit(s, width);
}

// ── the text with its cursor ────────────────────────────────────────────

/// The rows of lines.
pub open spec fn all_rows(lines: Seq<Seq<char>>, width: nat) -> Seq<Seq<char>>
    decreases lines.len(),
{
    if lines.len() == 0 {
        Seq::empty()
    } else {
        all_rows(lines.drop_last(), width) + hard_wrapped(lines.last(), width)
    }
}

/// Nothing has been typed.
pub open spec fn all_empty(lines: Seq<Seq<char>>) -> bool {
    forall|i: int| 0 <= i < lines.len() ==> (#[trigger] lines[i]).len() == 0
}

/// The part of a line in front of the cursor.
pub open spec fn before_cursor(line: Seq<char>, col: nat) -> Seq<char> {
    if col < line.len() {
        line.take(col as int)
    } else {
        line
    }
}

/// The row and the column of the cursor.
pub open spec fn cursor_at(lines: Seq<Seq<char>>, cursor: (nat, nat), width: nat) -> (nat, nat) {
    if cursor.0 < lines.len() {
        let (full, begun, col) = wrap_state(before_cursor(lines[cursor.0 as int], cursor.1), width);
        (all_rows(lines.take(cursor.0 as int), width).len() + full.len(), col)
    } else {
        (0, 0)
    }
}

/// The columns there are for the text: at least one.
pub open spec fn room(width: nat) -> nat {
    if width == 0 {
        1
    } else {
        width
    }
}

/// What the input shows, and where the cursor is. An empty input says how the
/// prompts that wait can be edited, where there are any.
pub open spec fn wrapped_input(lines: Seq<Seq<char>>, cursor: (nat, nat), queued: bool, width: nat) -> (
    Seq<Seq<char>>,
    (nat, nat),
) {
    if all_empty(lines) {
        (
            seq![
                if queued {
                    "Press up to edit queued messages"@
                } else {
                    ""@
                },
            ],
            (0, 0),
        )
    } else {
        (all_rows(lines, room(width)), cursor_at(lines, cursor, room(width)))
    }
}

fn is_all_empty(lines: &Vec<String>) -> (r: bool)
    ensures
        r == all_empty(texts(lines@)),
{
    let mut i: usize = 0;
    while i < lines.len()
        invariant
            i <= lines@.len(),
            forall|j: int| 0 <= j < i ==> (#[trigger] texts(lines@)[j]).len() == 0,
        decreases lines@.len() - i,
    {
        assert(texts(lines@)[i as int] == lines@[i as int]@);
        if char_count(lines[i].as_str()) > 0 {
            return false;
        }
        i += 1;
    }
    assert(texts(lines@).len() == lines@.len());
    true
}

/// Wrap what is typed into rows, with the row and the column of the cursor.
pub fn input_soft_wrapped_lines(
    lines: &Vec<String>,
    cursor: (usize, usize),
    has_queued_prompts: bool,
    content_width: usize,
) -> (r: (Vec<String>, usize, usize))
    ensures
        (texts(r.0@), (r.1 as nat, r.2 as nat)) == wrapped_input(
            texts(lines@),
            (cursor.0 as nat, cursor.1 as nat),
            has_queued_prompts,
            content_width as nat,
        ),
{
    let ghost all = texts(lines@);
    let width: usize = if content_width == 0 {
        1
    } else {
        content_width
    };
    let mut out: Vec<String> = Vec::new();
    if is_all_empty(lines) {
        out.push(
            if has_queued_prompts {
                "Press up to edit queued messages".to_owned()
            } else {
                "".to_owned()
            },
        );
        assert(texts(out@) =~= wrapped_input(
            all,
            (cursor.0 as nat, cursor.1 as nat),
            has_queued_prompts,
            content_width as nat,
        ).0);
        return (out, 0, 0);
    }
    let mut row: usize = 0;
    let mut col: usize = 0;
    let mut i: usize = 0;
    assert(all.len() == lines@.len());
    assert(texts(out@) =~= all_rows(all.take(0), width as nat));
    while i < lines.len()
        invariant
            i <= lines@.len(),
            all == texts(lines@),
            all.len() == lines@.len(),
            width == room(content_width as nat),
            texts(out@) == all_rows(all.take(i as int), width as nat),
            cursor.0 < i ==> (row as nat, col as nat) == cursor_at(
                all,
                (cursor.0 as nat, cursor.1 as nat),
                width as nat,
            ),
            cursor.0 >= i ==> row == 0 && col == 0,
        decreases lines@.len() - i,
    {
        assert(all.take(i + 1).drop_last() =~= all.take(i as int));
        assert(all.take(i + 1).last() == lines@[i as int]@);
        let cs = chars_of(lines[i].as_str());
        let before: usize = out.len();
        assert(texts(out@).len() == before);
        let mut more = hard_wrap_str(lines[i].as_str(), width);
        let ghost wrapped = texts(more@);
        assert(wrapped.len() == more@.len());
        out.append(&mut more);
        let after: usize = out.len();
        if i == cursor.0 {
            let n: usize = if cursor.1 < cs.len() {
                cursor.1
            } else {
                cs.len()
            };
            let (full, _begun, c) = wrap_chars(&cs, n, width);
            proof {
                lemma_prefix_has_fewer_rows(cs@, n as int, width as nat);
                assert(cs@.take(cs@.len() as int) =~= cs@);
                assert(cs@.take(n as int) == before_cursor(all[i as int], cursor.1 as nat));
                assert(texts(full@).len() == full@.len());
                assert(before + full@.len() <= after);
            }
            row = before + full.len();
            col = c;
        }
        i += 1;
    }
    assert(all.take(i as int) =~= all);
    (out, row, col)
}

/// How many rows the input takes: at least one.
pub fn input_visual_line_count(
    lines: &Vec<String>,
    cursor: (usize, usize),
    has_queued_prompts: bool,
    content_width: usize,
) -> (r: usize)
    ensures
        ({
            let n = wrapped_input(
                texts(lines@),
                (cursor.0 as nat, cursor.1 as nat),
                has_queued_prompts,
                content_width as nat,
            ).0.len();
            r == if n == 0 {
                1
            } else {
                n
            }
        }),
{
    let (rows, _row, _col) = input_soft_wrapped_lines(lines, cursor, has_queued_prompts, content_width);
    assert(texts(rows@).len() == rows@.len());
    if rows.len() == 0 {
        1
    } else {
        rows.len()
    }
}

// ── where things stand ──────────────────────────────────────────────────

/// A mode of the editor.
#[derive(Debug, Clone, Copy, PartialEq, Eq, Structural)]
pub enum VimMode {
    Normal,
    Insert,
    Visual,
}

/// What the input's frame says.
#[derive(Debug)]
pub enum InputTitle {
    /// The message of that number is being edited.
    Editing(usize),
    /// The mode of the editor, and what it is called.
    Mode(VimMode, String),
}

/// The title of the input, in a colour of its own for each mode.
pub open spec fn title_text(t: InputTitle) -> (Seq<char>, Style) {
    match t {
        InputTitle::Editing(idx) => (
            " editing #"@ + decimal(idx as nat) + " · Esc to cancel "@,
            Style::in_tone(Tone::Warning).made_bold(),
        ),
        InputTitle::Mode(mode, tag) => (
            " "@ + tag@ + " "@,
            Style::in_tone(
                match mode {
                    VimMode::Insert => Tone::Success,
                    VimMode::Visual => Tone::Warning,
                    VimMode::Normal => Tone::Accent,
                },
            ).made_bold(),
        ),
    }
}

/// The title of the input.
pub fn input_title(t: &InputTitle) -> (r: Span)
    ensures
        r@ == title_text(*t),
{
    match t {
        InputTitle::Editing(idx) => span(
            cat3(" editing #", count_text(*idx).as_str(), " · Esc to cancel "),
            Style::fg(Tone::Warning).bold(),
        ),
        InputTitle::Mode(mode, tag) => {
            let tone = match mode {
                VimMode::Insert => Tone::Success,
                VimMode::Visual => Tone::Warning,
                VimMode::Normal => Tone::Accent,
            };
            span(cat3(" ", tag.as_str(), " "), Style::fg(tone).bold())
        },
    }
}

/// Where the prompt and the text stand.
#[derive(Debug, Clone, Copy, PartialEq, Eq)]
pub struct InputAreas {
    /// What is left inside the padding.
    pub content: Rect,
    /// Columns of the prompt's sign.
    pub prompt_width: u16,
    pub text: Rect,
}

/// The rows above and below the text: none where there is a title or little
/// room.
pub open spec fn padding(has_title: bool, height: int) -> int {
    if has_title || height < 3 {
        0
    } else {
        1
    }
}

/// Columns of the prompt's sign.
pub open spec fn prompt_columns(prompt: Seq<char>) -> int {
    if text_columns(prompt) > u16::MAX {
        u16::MAX as int
    } else {
        text_columns(prompt) as int
    }
}

/// Columns of the prompt's sign and the gap behind it.
pub open spec fn prompt_cells(prompt: Seq<char>) -> int {
    if prompt_columns(prompt) + 1 > u16::MAX {
        u16::MAX as int
    } else {
        prompt_columns(prompt) + 1
    }
}

/// Where the prompt and the text stand inside the frame.
pub open spec fn areas_of(inner: Rect, has_title: bool, prompt: Seq<char>) -> InputAreas {
    let pad = padding(has_title, inner.height as int);
    let cells = prompt_cells(prompt);
    let content = Rect {
        x: inner.x,
        y: (inner.y + pad) as u16,
        width: inner.width,
        height: (inner.height - 2 * pad) as u16,
    };
    InputAreas {
        content,
        prompt_width: prompt_columns(prompt) as u16,
        text: Rect {
            x: (inner.x + if cells < inner.width {
                cells
            } else {
                inner.width as int
            }) as u16,
            y: content.y,
            width: minus(inner.width as int, cells) as u16,
            height: content.height,
        },
    }
}

/// Where the prompt and the text stand inside the frame.
pub fn input_areas(inner: Rect, has_title: bool, prompt: &str) -> (r: InputAreas)
    requires
        inner.fits(),
    ensures
        r == areas_of(inner, has_title, prompt@),
        r.text.fits(),
{
    let pad: u16 = if has_title || inner.height < 3 {
        0
    } else {
        1
    };
    let content = Rect {
        x: inner.x,
        y: inner.y + pad,
        width: inner.width,
        height: inner.height - 2 * pad,
    };
    let columns: usize = cell_width(prompt);
    let prompt_width: u16 = if columns > 65535 {
        65535
    } else {
        columns as u16
    };
    let cells: u16 = prompt_width.saturating_add(1);
    let shift: u16 = if cells < content.width {
        cells
    } else {
        content.width
    };
    let text = Rect {
        x: content.x + shift,
        y: content.y,
        width: content.width.saturating_sub(cells),
        height: content.height,
    };
    InputAreas { content, prompt_width, text }
}

/// The first row that is shown, so that the row of the cursor is.
pub open spec fn first_row_shown(cursor_row: nat, height: nat) -> nat {
    let visible = room(height);
    if cursor_row + 1 > visible {
        (cursor_row + 1 - visible) as nat
    } else {
        0
    }
}

/// The rows that are shown, the first one left out being `end`.
pub open spec fn shown_range(total: nat, cursor_row: nat, height: nat) -> (nat, nat) {
    let start = first_row_shown(cursor_row, height);
    let end = start + room(height);
    (
        start,
        if end > total {
            total
        } else {
            end
        },
    )
}

/// The rows that are shown.
pub fn visible_rows(total: usize, cursor_row: usize, height: u16) -> (r: (usize, usize))
    ensures
        (r.0 as nat, r.1 as nat) == shown_range(total as nat, cursor_row as nat, height as nat),
{
    let visible: usize = if height == 0 {
        1
    } else {
        height as usize
    };
    let start: usize = if cursor_row >= visible {
        cursor_row - visible + 1
    } else {
        0
    };
    let end: usize = if start < total && total - start > visible {
        start + visible
    } else {
        total
    };
    (start, end)
}

/// The row of the cursor is among those that are shown.
pub proof fn law_cursor_row_is_shown(total: nat, cursor_row: nat, height: nat)
    requires
        cursor_row < total,
    ensures
        shown_range(total, cursor_row, height).0 <= cursor_row < shown_range(total, cursor_row, height).1,
{
}

/// A coordinate moved by `by`, no further than the last cell before `edge`.
pub open spec fn moved(from: int, by: nat, edge: int) -> int {
    let step = by as int % 0x10000;
    let to = if from + step > u16::MAX {
        u16::MAX as int
    } else {
        from + step
    };
    let last = minus(edge, 1);
    if to < last {
        to
    } else {
        last
    }
}

fn move_within(from: u16, by: usize, edge: u16) -> (r: u16)
    ensures
        r == moved(from as int, by as nat, edge as int),
{
    let step: u16 = (by % 0x10000) as u16;
    let to: u16 = from.saturating_add(step);
    let last: u16 = edge.saturating_sub(1);
    if to < last {
        to
    } else {
        last
    }
}

/// The cell of the cursor, kept inside the text.
pub fn cursor_cell(text: Rect, cursor_row: usize, cursor_col: usize, first_row: usize) -> (r: (u16, u16))
    requires
        text.fits(),
    ensures
        r.0 == moved(text.x as int, cursor_col as nat, text.x + text.width),
        r.1 == moved(
            text.y as int,
            minus(cursor_row as int, first_row as int) as nat,
            text.y + text.height,
        ),
{
    (
        move_within(text.x, cursor_col, text.x + text.width),
        move_within(text.y, cursor_row.saturating_sub(first_row), text.y + text.height),
    )
}

/// How the cursor is drawn.
#[derive(Debug, Clone, Copy, PartialEq, Eq, Structural)]
pub enum CursorLook {
    /// Not at all: the input is too small.
    Hidden,
    /// As a bar that moves with the voice.
    Voice,
    /// As the terminal draws it, on a tinted cell or a plain one.
    Terminal { tinted: bool },
}

/// How the cursor is drawn.
pub open spec fn look_of(
    width: u16,
    height: u16,
    recording: bool,
    reduced_motion: bool,
    is_streaming: bool,
    editing: bool,
) -> CursorLook {
    if height <= 1 || width <= 2 {
        CursorLook::Hidden
    } else if recording && !reduced_motion {
        CursorLook::Voice
    } else {
        CursorLook::Terminal { tinted: !is_streaming && !editing && !reduced_motion }
    }
}

/// How the cursor is drawn in an input of that size.
pub fn cursor_look(
    width: u16,
    height: u16,
    recording: bool,
    reduced_motion: bool,
    is_streaming: bool,
    editing: bool,
) -> (r: CursorLook)
    ensures
        r == look_of(width, height, recording, reduced_motion, is_streaming, editing),
{
    if height <= 1 || width <= 2 {
        CursorLook::Hidden
    } else if recording && !reduced_motion {
        CursorLook::Voice
    } else {
        CursorLook::Terminal { tinted: !is_streaming && !editing && !reduced_motion }
    }
}

// ── the whole input ─────────────────────────────────────────────────────

/// What the input depends on.
#[derive(Debug)]
pub struct InputState {
    /// The message that is being edited.
    pub editing: Option<usize>,
    /// The mode of the editor, where it has modes, and what it is called.
    pub vim: Option<(VimMode, String)>,
    /// The sign of the prompt.
    pub prompt: String,
    /// The sign stands on its colour rather than in it.
    pub invert_prompt: bool,
    pub is_streaming: bool,
    pub recording: bool,
    pub reduced_motion: bool,
    pub has_queued_prompts: bool,
    pub lines: Vec<String>,
    /// The line and the character of the cursor.
    pub cursor: (usize, usize),
}

/// The title of the input. An edit is more important than a mode.
pub open spec fn title_of(s: InputState) -> Option<(Seq<char>, Style)> {
    match (s.editing, s.vim) {
        (Some(idx), _) => Some(title_text(InputTitle::Editing(idx))),
        (None, Some((mode, tag))) => Some(title_text(InputTitle::Mode(mode, tag))),
        (None, None) => None,
    }
}

/// The sign of the prompt: a pencil during an edit.
pub open spec fn sign_of(s: InputState) -> Seq<char> {
    if s.editing is Some {
        "✎"@
    } else {
        s.prompt@
    }
}

/// The colours of the sign and of the frame.
pub open spec fn input_tones(editing: bool, is_streaming: bool) -> (Tone, Tone) {
    if editing {
        (Tone::Warning, Tone::Warning)
    } else if is_streaming {
        (Tone::Accent, Tone::PromptBorderShimmer)
    } else {
        (Tone::Accent, Tone::PromptBorder)
    }
}

/// How the sign is drawn.
pub open spec fn sign_style(tone: Tone, invert: bool) -> Style {
    if invert {
        Style::in_tone(Tone::Background).on_tone(tone).made_bold()
    } else {
        Style::in_tone(tone).on_tone(Tone::Background).made_bold()
    }
}

/// What the frame leaves free: a column at either side, and where there is a
/// title its row and a bar on the left.
pub open spec fn inside_frame(area: Rect, has_title: bool) -> Rect {
    let bar = if has_title && area.width > 0 {
        1int
    } else {
        0
    };
    let head = if has_title && area.height > 0 {
        1int
    } else {
        0
    };
    Rect {
        x: (if area.x + bar < u16::MAX {
            area.x + bar + 1
        } else {
            u16::MAX as int
        }) as u16,
        y: (area.y + head) as u16,
        width: minus(area.width - bar, 2) as u16,
        height: (area.height - head) as u16,
    }
}

fn frame_inner(area: Rect, has_title: bool) -> (r: Rect)
    requires
        area.fits(),
    ensures
        r == inside_frame(area, has_title),
        r.fits(),
{
    let bar: u16 = if has_title && area.width > 0 {
        1
    } else {
        0
    };
    let head: u16 = if has_title && area.height > 0 {
        1
    } else {
        0
    };
    Rect {
        x: (area.x + bar).saturating_add(1),
        y: area.y + head,
        width: (area.width - bar).saturating_sub(2),
        height: area.height - head,
    }
}

/// The input as it is drawn.
#[derive(Debug)]
pub struct InputView {
    /// The title; with one goes a bar on the left.
    pub title: Option<Span>,
    pub border: Tone,
    pub areas: InputAreas,
    /// The sign, and the cell in which it stands, where that is on the screen.
    pub prompt: Span,
    pub prompt_cell: Option<(u16, u16)>,
    /// The blank cell behind the sign.
    pub gap_cell: Option<(u16, u16)>,
    /// The rows that are shown.
    pub rows: Vec<String>,
    pub cursor: (u16, u16),
    pub look: CursorLook,
}

/// The cell `by` columns behind the first one of `content`, where there is room
/// on the screen.
pub open spec fn cell_at(content: Rect, by: int, screen: Rect) -> Option<(u16, u16)> {
    let x = if content.x + by > u16::MAX {
        u16::MAX as int
    } else {
        content.x + by
    };
    if content.height > 0 && content.y < screen.y + screen.height && x < screen.x + screen.width {
        Some((x as u16, content.y))
    } else {
        None
    }
}

fn cell_behind(content: Rect, by: u16, screen: Rect) -> (r: Option<(u16, u16)>)
    requires
        screen.fits(),
    ensures
        r == cell_at(content, by as int, screen),
{
    let x: u16 = content.x.saturating_add(by);
    if content.height > 0 && content.y < screen.y + screen.height && x < screen.x + screen.width {
        Some((x, content.y))
    } else {
        None
    }
}

/// What is typed, wrapped into the room there is.
pub open spec fn typed_rows(s: InputState, text: Rect) -> (Seq<Seq<char>>, (nat, nat)) {
    wrapped_input(
        texts(s.lines@),
        (s.cursor.0 as nat, s.cursor.1 as nat),
        s.has_queued_prompts,
        text.width as nat,
    )
}

/// The input is drawn in that area.
pub open spec fn is_input_view(v: InputView, s: InputState, area: Rect, screen: Rect) -> bool {
    let title = title_of(s);
    let areas = areas_of(inside_frame(area, title is Some), title is Some, sign_of(s));
    let (tone, border) = input_tones(s.editing is Some, s.is_streaming);
    let (rows, (row, col)) = typed_rows(s, areas.text);
    let (first, end) = shown_range(rows.len(), row, areas.text.height as nat);
    &&& match v.title {
        Some(t) => title == Some(t@),
        None => title is None,
    }
    &&& v.border == border
    &&& v.areas == areas
    &&& v.prompt@ == (sign_of(s), sign_style(tone, s.invert_prompt))
    &&& v.prompt_cell == cell_at(areas.content, 0, screen)
    &&& v.gap_cell == cell_at(areas.content, prompt_columns(sign_of(s)), screen)
    &&& texts(v.rows@) == (if first <= end {
        rows.subrange(first as int, end as int)
    } else {
        Seq::empty()
    })
    &&& v.cursor.0 == moved(areas.text.x as int, col, areas.text.x + areas.text.width)
    &&& v.cursor.1 == moved(
        areas.text.y as int,
        minus(row as int, first as int) as nat,
        areas.text.y + areas.text.height,
    )
    &&& v.look == look_of(
        area.width,
        area.height,
        s.recording,
        s.reduced_motion,
        s.is_streaming,
        s.editing is Some,
    )
}

fn rows_between(rows: &Vec<String>, first: usize, end: usize) -> (r: Vec<String>)
    requires
        end <= rows@.len(),
    ensures
        texts(r@) == (if first <= end {
            texts(rows@).subrange(first as int, end as int)
        } else {
            Seq::empty()
        }),
{
    let mut out: Vec<String> = Vec::new();
    let mut i: usize = first;
    let ghost goal = if first <= end {
        texts(rows@).subrange(first as int, end as int)
    } else {
        Seq::empty()
    };
    assert(texts(out@) =~= goal.take(0));
    while i < end
        invariant
            first <= i,
            end <= rows@.len(),
            first <= end ==> i <= end,
            first <= end ==> goal == texts(rows@).subrange(first as int, end as int),
            first > end ==> goal.len() == 0 && i == first,
            texts(out@) == goal.take(i - first),
        decreases end - i,
    {
        out.push(rows[i].clone());
        assert(goal.take(i + 1 - first) =~= goal.take(i - first).push(rows@[i as int]@));
        i += 1;
    }
    assert(goal.take(i - first) =~= goal);
    out
}

/// The input, in an area of a screen.
#[verifier::spinoff_prover]
#[verifier::rlimit(40)]
pub fn input(s: &InputState, area: Rect, screen: Rect) -> (r: InputView)
    requires
        area.fits(),
        screen.fits(),
    ensures
        is_input_view(r, *s, area, screen),
{
    let title = match (&s.editing, &s.vim) {
        (Some(idx), _) => Some(input_title(&InputTitle::Editing(*idx))),
        (None, Some((mode, tag))) => Some(input_title(&InputTitle::Mode(*mode, tag.clone()))),
        (None, None) => None,
    };
    let editing = s.editing.is_some();
    let has_title = title.is_some();
    let sign = if editing {
        "✎".to_owned()
    } else {
        s.prompt.clone()
    };
    let (tone, border) = if editing {
        (Tone::Warning, Tone::Warning)
    } else if s.is_streaming {
        (Tone::Accent, Tone::PromptBorderShimmer)
    } else {
        (Tone::Accent, Tone::PromptBorder)
    };
    let style = if s.invert_prompt {
        Style::fg(Tone::Background).on(tone).bold()
    } else {
        Style::fg(tone).on(Tone::Background).bold()
    };
    let areas = input_areas(frame_inner(area, has_title), has_title, sign.as_str());
    let (rows, row, col) = input_soft_wrapped_lines(
        &s.lines,
        s.cursor,
        s.has_queued_prompts,
        areas.text.width as usize,
    );
    assert(texts(rows@).len() == rows@.len());
    let (first, end) = visible_rows(rows.len(), row, areas.text.height);
    let shown = rows_between(&rows, first, end);
    InputView {
        title,
        border,
        areas,
        prompt: span(sign, style),
        prompt_cell: cell_behind(areas.content, 0, screen),
        gap_cell: cell_behind(areas.content, areas.prompt_width, screen),
        rows: shown,
        cursor: cursor_cell(areas.text, row, col, first),
        look: cursor_look(area.width, area.height, s.recording, s.reduced_motion, s.is_streaming, editing),
    }
}

proof fn lemma_glued_adds(a: Seq<Seq<char>>, b: Seq<Seq<char>>)
    ensures
        glued(a + b) == glued(a) + glued(b),
    decreases b.len(),
{
    if b.len() == 0 {
        assert(a + b =~= a);
        assert(glued(a) + glued(b) =~= glued(a));
    } else {
        lemma_glued_adds(a, b.drop_last());
        assert((a + b).drop_last() =~= a + b.drop_last());
        assert((a + b).last() == b.last());
        assert(glued(a + b) =~= glued(a) + glued(b));
    }
}

/// The rows of the input hold everything that was typed, in its order, each line on
/// rows of its own.
pub proof fn law_everything_typed_is_in_the_rows(lines: Seq<Seq<char>>, width: nat)
    ensures
        glued(all_rows(lines, width)) == glued(lines),
        all_rows(lines, width).len() >= lines.len(),
    decreases lines.len(),
{
    if lines.len() > 0 {
        let front = lines.drop_last();
        law_everything_typed_is_in_the_rows(front, width);
        law_wrapping_keeps_the_text(lines.last(), width);
        lemma_glued_adds(all_rows(front, width), hard_wrapped(lines.last(), width));
    }
}

/// The cursor stands behind the text before it: what stands on the rows of its line
/// above it, and in the columns before it, is that text and nothing else.
pub proof fn law_cursor_stands_behind_its_text(lines: Seq<Seq<char>>, row: nat, col: nat, width: nat)
    requires
        row < lines.len(),
        col <= lines[row as int].len(),
    ensures
        ({
            let before = lines[row as int].take(col as int);
            let (full, begun, column) = wrap_state(before, width);
            &&& cursor_at(lines, (row, col), width) == (
                all_rows(lines.take(row as int), width).len() + full.len(),
                row_columns(begun),
            )
            &&& glued(full) + begun == before
        }),
{
    let line = lines[row as int];
    let before = line.take(col as int);
    assert(line.take(line.len() as int) =~= line);
    assert(before_cursor(line, col) == before);
    let (full, begun, column) = wrap_state(before, width);
    lemma_wrapped_rows_fit(before, width);
    law_wrapping_keeps_the_text(before, width);
    assert(full.push(begun).drop_last() =~= full);
}

/// An empty input hints at the prompts that wait, if there are any; one with text shows
/// the text alone.
pub proof fn law_empty_input_hints_at_the_queue(lines: Seq<Seq<char>>, cursor: (nat, nat), queued: bool, width: nat)
    ensures
        all_empty(lines) && queued ==> wrapped_input(lines, cursor, queued, width).0 == seq![
            "Press up to edit queued messages"@,
        ],
        all_empty(lines) && !queued ==> glued(wrapped_input(lines, cursor, queued, width).0).len() == 0,
        !all_empty(lines) ==> glued(wrapped_input(lines, cursor, queued, width).0) == glued(lines),
        all_empty(lines) ==> wrapped_input(lines, cursor, queued, width).1 == (0nat, 0nat),
{
    if all_empty(lines) {
        reveal_strlit("");
        let rows = seq![""@];
        assert(rows.drop_last() =~= Seq::empty());
        assert(glued(rows.drop_last()) =~= Seq::<char>::empty());
        assert(glued(rows) =~= Seq::<char>::empty());
    } else {
        law_everything_typed_is_in_the_rows(lines, room(width));
    }
}

/// A message that is being edited is named by its number, whatever mode the editor is
/// in, and marked by the pen in place of the prompt.
pub proof fn law_edited_messages_are_marked(v: InputView, s: InputState, area: Rect, screen: Rect)
    requires
        is_input_view(v, s, area, screen),
        s.editing is Some,
    ensures
        v.title matches Some(t) && crate::slicing::has_text(t@.0, "#"@ + decimal(s.editing->0 as nat)),
        v.prompt@.0 == "✎"@,
        v.border == Tone::Warning,
{
    let n = decimal(s.editing->0 as nat);
    reveal_strlit(" editing #");
    reveal_strlit("#");
    let w = "#"@ + n;
    let t = " editing #"@ + n + " · Esc to cancel "@;
    assert(t.subrange(9, 9int + w.len()) =~= w);
    assert(crate::slicing::occurs_at(t, w, 9));
}

/// The rows that are shown are those around the cursor, unchanged.
pub proof fn law_shown_rows_are_the_typed_rows(v: InputView, s: InputState, area: Rect, screen: Rect, i: int)
    requires
        is_input_view(v, s, area, screen),
        0 <= i < v.rows@.len(),
    ensures
        ({
            let (rows, (row, col)) = typed_rows(s, v.areas.text);
            let first = first_row_shown(row, v.areas.text.height as nat);
            &&& first + i < rows.len()
            &&& v.rows@[i]@ == rows[first + i]
        }),
        v.rows@.len() <= room(v.areas.text.height as nat),
{
    assert(texts(v.rows@)[i] == v.rows@[i]@);
    assert(texts(v.rows@).len() == v.rows@.len());
}

/// A cell stands in the first row of the content, so many columns behind its start, and
/// only where that is on the screen.
pub proof fn law_cells_stand_on_the_screen(content: Rect, by: int, screen: Rect)
    requires
        by >= 0,
        content.x + by <= u16::MAX,
    ensures
        cell_at(content, by, screen) matches Some(c) ==> c.1 == content.y && c.0 == content.x + by && c.0 < screen.x
            + screen.width && c.1 < screen.y + screen.height,
        content.height > 0 && content.y < screen.y + screen.height && content.x + by < screen.x + screen.width
            ==> cell_at(content, by, screen) is Some,
        content.height == 0 ==> cell_at(content, by, screen) is None,
{
}

/// The sign of the prompt takes its columns and one for the gap.
pub proof fn law_prompts_leave_a_gap(prompt: Seq<char>)
    ensures
        prompt_columns(prompt) < u16::MAX ==> prompt_cells(prompt) == prompt_columns(prompt) + 1,
        prompt_cells(prompt) <= u16::MAX,
{
}

} // verus!
