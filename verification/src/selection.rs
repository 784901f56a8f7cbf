//! Selecting text in the transcript with the mouse.
//!
//! A selection is kept in lines of the content, not in rows of the screen, so
//! it stays with its text when the transcript is scrolled.
use vstd::prelude::*;

use crate::layout::{clamp_u16, clamped, Rect};
use crate::slicing::{group_texts, join, joined, texts, trim, trim_end, trimmed, trimmed_end};
use crate::text::{char_count, char_is_alphanumeric, is_alphanumeric};

verus! {

broadcast use group_texts;

/// A selection. A point is a column of the screen and a line of the content.
#[derive(Debug, Clone, Copy, PartialEq, Eq)]
pub struct TextSelection {
    pub anchor: (u16, usize),
    pub head: (u16, usize),
    /// The width of the transcript when the selection was made.
    pub area_width: u16,
    pub dragged: bool,
    /// The selection is complete and is to be copied.
    pub finalize: bool,
    pub copied: bool,
}

/// `a` lies before `b` in the text.
pub open spec fn point_before(a: (u16, usize), b: (u16, usize)) -> bool {
    a.1 < b.1 || (a.1 == b.1 && a.0 < b.0)
}

impl TextSelection {
    /// The two ends in the order of the text.
    pub open spec fn ends(self) -> ((u16, usize), (u16, usize)) {
        if point_before(self.head, self.anchor) {
            (self.head, self.anchor)
        } else {
            (self.anchor, self.head)
        }
    }

    pub fn ordered(&self) -> (r: ((u16, usize), (u16, usize)))
        ensures
            r == self.ends(),
    {
        let (a, h) = (self.anchor, self.head);
        if h.1 < a.1 || (h.1 == a.1 && h.0 < a.0) {
            (h, a)
        } else {
            (a, h)
        }
    }
}

// ── columns of a line ───────────────────────────────────────────────────

/// The columns that are selected on a line, the last one left out. The first
/// line runs from its end point to the right edge, the last one from the left
/// edge to its end point, and lines between them over the whole width.
pub open spec fn line_span(line: int, start: (int, int), end: (int, int), left: int, right: int) -> (int, int) {
    let after_end = if end.0 + 1 > u16::MAX {
        u16::MAX as int
    } else {
        end.0 + 1
    };
    let (c0, c1) = if start.1 == end.1 {
        (start.0, after_end)
    } else if line == start.1 {
        (start.0, right)
    } else if line == end.1 {
        (left, after_end)
    } else {
        (left, right)
    };
    (clamped(c0, left, right), clamped(c1, left, right))
}

/// The columns that are selected on a line, the last one left out.
pub fn selection_line_span(line: usize, start: (u16, usize), end: (u16, usize), left: u16, right: u16) -> (r: (u16, u16))
    requires
        left <= right,
    ensures
        (r.0 as int, r.1 as int) == line_span(
            line as int,
            (start.0 as int, start.1 as int),
            (end.0 as int, end.1 as int),
            left as int,
            right as int,
        ),
{
    let after_end: u16 = end.0.saturating_add(1);
    let (c0, c1) = if start.1 == end.1 {
        (start.0, after_end)
    } else if line == start.1 {
        (start.0, right)
    } else if line == end.1 {
        (left, after_end)
    } else {
        (left, right)
    };
    (clamp_u16(c0, left, right), clamp_u16(c1, left, right))
}

/// What is selected on a line does not depend on where the lines begin to be
/// counted: scrolling does not change it.
pub proof fn law_span_is_scroll_invariant(
    line: int,
    start: (int, int),
    end: (int, int),
    left: int,
    right: int,
    shift: int,
)
    ensures
        line_span(line + shift, (start.0, start.1 + shift), (end.0, end.1 + shift), left, right)
            == line_span(line, start, end, left, right),
{
}

/// What is selected on a line lies between the edges.
pub proof fn law_span_stays_inside(line: int, start: (int, int), end: (int, int), left: int, right: int)
    requires
        left <= right,
    ensures
        ({
            let (c0, c1) = line_span(line, start, end, left, right);
            left <= c0 <= right && left <= c1 <= right
        }),
{
}

// ── words ───────────────────────────────────────────────────────────────

/// A character that belongs to a word; those of paths do.
pub open spec fn in_word(c: char) -> bool {
    is_alphanumeric(c) || c == '_' || c == '/' || c == '.' || c == '-' || c == '+' || c == '~' || c == '\\'
}

/// Whether a character belongs to a word.
pub fn is_word_char(c: char) -> (r: bool)
    ensures
        r == in_word(c),
{
    char_is_alphanumeric(c) || c == '_' || c == '/' || c == '.' || c == '-' || c == '+' || c == '~' || c
        == '\\'
}

/// Where the word that reaches up to `i` begins.
pub open spec fn word_start(cs: Seq<char>, i: int) -> int
    decreases i,
{
    if i <= 0 || i > cs.len() || !in_word(cs[i - 1]) {
        i
    } else {
        word_start(cs, i - 1)
    }
}

/// Where the word that reaches from `i` on ends.
pub open spec fn word_end(cs: Seq<char>, i: int) -> int
    decreases cs.len() - i,
{
    if i < 0 || i + 1 >= cs.len() || !in_word(cs[i + 1]) {
        i
    } else {
        word_end(cs, i + 1)
    }
}

/// The cells of the word under a cell, both ends included. A cell that belongs
/// to no word stands alone.
pub open spec fn word_span(cs: Seq<char>, idx: int) -> (int, int) {
    if cs.len() == 0 {
        (0, 0)
    } else {
        let i = if idx < cs.len() {
            idx
        } else {
            cs.len() - 1
        };
        if in_word(cs[i]) {
            (word_start(cs, i), word_end(cs, i))
        } else {
            (i, i)
        }
    }
}

/// The cells of the word under a cell, both ends included.
pub fn word_span_in_row(chars: &Vec<char>, idx: usize) -> (r: (usize, usize))
    ensures
        (r.0 as int, r.1 as int) == word_span(chars@, idx as int),
        chars@.len() > 0 ==> r.0 <= r.1 < chars@.len(),
        chars@.len() == 0 ==> r == (0usize, 0usize),
{
    if chars.len() == 0 {
        return (0, 0);
    }
    let i: usize = if idx < chars.len() {
        idx
    } else {
        chars.len() - 1
    };
    if !is_word_char(chars[i]) {
        return (i, i);
    }
    let mut start: usize = i;
    while start > 0 && is_word_char(chars[start - 1])
        invariant
            start <= i < chars@.len(),
            word_start(chars@, i as int) == word_start(chars@, start as int),
        decreases start,
    {
        start -= 1;
    }
    let n: usize = chars.len();
    let mut end: usize = i;
    while end + 1 < n && is_word_char(chars[end + 1])
        invariant
            i <= end < n == chars@.len(),
            word_end(chars@, i as int) == word_end(chars@, end as int),
        decreases n - end,
    {
        end += 1;
    }
    (start, end)
}

proof fn lemma_word_start(cs: Seq<char>, i: int)
    requires
        0 <= i < cs.len(),
        in_word(cs[i]),
    ensures
        0 <= word_start(cs, i) <= i,
        forall|k: int| word_start(cs, i) <= k <= i ==> in_word(#[trigger] cs[k]),
        word_start(cs, i) > 0 ==> !in_word(cs[word_start(cs, i) - 1]),
    decreases i,
{
    if i > 0 && in_word(cs[i - 1]) {
        lemma_word_start(cs, i - 1);
    }
}

proof fn lemma_word_end(cs: Seq<char>, i: int)
    requires
        0 <= i < cs.len(),
        in_word(cs[i]),
    ensures
        i <= word_end(cs, i) < cs.len(),
        forall|k: int| i <= k <= word_end(cs, i) ==> in_word(#[trigger] cs[k]),
        word_end(cs, i) + 1 < cs.len() ==> !in_word(cs[word_end(cs, i) + 1]),
    decreases cs.len() - i,
{
    if i + 1 < cs.len() && in_word(cs[i + 1]) {
        lemma_word_end(cs, i + 1);
    }
}

/// A word holds nothing but characters of words, and could not be longer at
/// either end.
pub proof fn law_word_is_whole(cs: Seq<char>, i: int)
    requires
        0 <= i < cs.len(),
        in_word(cs[i]),
    ensures
        ({
            let (s, e) = word_span(cs, i);
            &&& 0 <= s <= i <= e < cs.len()
            &&& forall|k: int| s <= k <= e ==> in_word(#[trigger] cs[k])
            &&& s > 0 ==> !in_word(cs[s - 1])
            &&& e + 1 < cs.len() ==> !in_word(cs[e + 1])
        }),
{
    lemma_word_start(cs, i);
    lemma_word_end(cs, i);
}

// ── several clicks ──────────────────────────────────────────────────────

/// What several clicks select.
#[derive(Debug, Clone, Copy, PartialEq, Eq, Structural)]
pub enum SelectKind {
    Word,
    Line,
}

/// Several clicks on a cell of the screen.
#[derive(Debug, Clone, Copy, PartialEq, Eq, Structural)]
pub struct SelectRequest {
    pub kind: SelectKind,
    pub col: u16,
    pub row: u16,
}

/// The columns that the clicks select, the last one included.
pub open spec fn clicked_columns(req: SelectRequest, cs: Seq<char>, left: int, right: int) -> (int, int) {
    match req.kind {
        SelectKind::Line => (left, right - 1),
        SelectKind::Word => {
            let (s, e) = word_span(cs, clamped(req.col as int, left, right - 1) - left);
            (left + s, left + e)
        },
    }
}

/// What the clicks select: nothing outside the transcript or where it is too
/// small.
pub open spec fn clicked_selection(req: SelectRequest, area: Rect, cs: Seq<char>, scroll: nat) -> Option<TextSelection> {
    let left = area.x + 1;
    let right = area.x + area.width - 1;
    if area.width < 3 || area.height < 3 || req.row < area.y || req.row >= area.y + area.height {
        None
    } else {
        let (c0, c1) = clicked_columns(req, cs, left, right);
        let line = (scroll + (req.row - area.y)) as usize;
        Some(
            TextSelection {
                anchor: (c0 as u16, line),
                head: (c1 as u16, line),
                area_width: area.width,
                dragged: true,
                finalize: true,
                copied: false,
            },
        )
    }
}

/// What several clicks select, with the characters of the clicked row between
/// the margins.
pub fn resolve_select_request(req: SelectRequest, area: Rect, row_chars: &Vec<char>, scroll: usize) -> (r: Option<
    TextSelection,
>)
    requires
        area.fits(),
        area.width >= 2 ==> row_chars@.len() == area.width - 2,
        scroll + area.height <= usize::MAX,
    ensures
        r == clicked_selection(req, area, row_chars@, scroll as nat),
{
    if area.width < 3 || area.height < 3 {
        return None;
    }
    let bottom: u16 = area.y + area.height;
    let left: u16 = area.x + 1;
    let right: u16 = area.x + area.width - 1;
    if req.row < area.y || req.row >= bottom {
        return None;
    }
    let (anchor_col, head_col) = match req.kind {
        SelectKind::Line => (left, right - 1),
        SelectKind::Word => {
            let at: usize = (clamp_u16(req.col, left, right - 1) - left) as usize;
            let (s, e) = word_span_in_row(row_chars, at);
            (left + s as u16, left + e as u16)
        },
    };
    let line: usize = scroll + (req.row - area.y) as usize;
    Some(
        TextSelection {
            anchor: (anchor_col, line),
            head: (head_col, line),
            area_width: area.width,
            dragged: true,
            finalize: true,
            copied: false,
        },
    )
}

// ── copying ─────────────────────────────────────────────────────────────

/// Lines that are copied at most.
pub const MAX_COPY_LINES: usize = 2000;

/// How many lines are copied.
pub open spec fn copied_lines(first: nat, last: nat) -> nat {
    let span = if last >= first {
        (last - first + 1) as nat
    } else {
        1
    };
    if span > MAX_COPY_LINES {
        MAX_COPY_LINES as nat
    } else {
        span
    }
}

/// How many lines of the content a selection copies.
pub fn copy_span(start: (u16, usize), end: (u16, usize)) -> (r: usize)
    ensures
        r == copied_lines(start.1 as nat, end.1 as nat),
{
    let span: usize = end.1.saturating_sub(start.1).saturating_add(1);
    if span > MAX_COPY_LINES {
        MAX_COPY_LINES
    } else {
        span
    }
}

/// The cells of a line from column `from` up to `to`, put together. Cells that
/// are not there give nothing.
pub open spec fn cells_text(cells: Seq<Seq<char>>, from: int, to: int) -> Seq<char>
    decreases to - from,
{
    if to <= from {
        Seq::empty()
    } else {
        let before = cells_text(cells, from, to - 1);
        if 0 <= to - 1 < cells.len() {
            before + cells[to - 1]
        } else {
            before
        }
    }
}

fn text_of_cells(cells: &Vec<String>, from: usize, to: usize) -> (r: String)
    ensures
        r@ == cells_text(texts(cells@), from as int, to as int),
{
    let ghost all = texts(cells@);
    assert(all.len() == cells@.len());
    let mut out = String::new();
    let mut i: usize = from;
    assert(out@ =~= Seq::<char>::empty());
    while i < to
        invariant
            from <= i <= to || to <= from,
            i >= from,
            all == texts(cells@),
            all.len() == cells@.len(),
            i <= to ==> out@ == cells_text(all, from as int, i as int),
            to <= from ==> out@ == Seq::<char>::empty(),
        decreases to - i,
    {
        if i < cells.len() {
            assert(all[i as int] == cells@[i as int]@);
            out.push_str(cells[i].as_str());
        }
        i += 1;
    }
    out
}

/// What a list of rows of cells holds.
pub open spec fn grid(cells: Seq<Vec<String>>) -> Seq<Seq<Seq<char>>> {
    cells.map_values(|row: Vec<String>| texts(row@))
}

/// The text of a line of the selection.
pub open spec fn selected_line(
    cells: Seq<Seq<Seq<char>>>,
    off: int,
    start: (u16, usize),
    end: (u16, usize),
    area: Rect,
) -> Seq<char> {
    let left = area.x + 1;
    let (c0, c1) = line_span(
        start.1 + off,
        (start.0 as int, start.1 as int),
        (end.0 as int, end.1 as int),
        left,
        area.x + area.width - 1,
    );
    let row = if 0 <= off < cells.len() {
        cells[off]
    } else {
        Seq::empty()
    };
    trimmed_end(cells_text(row, c0 - left, c1 - left))
}

/// The text of the selection, line by line, without the space at the ends.
pub open spec fn selected_text(
    cells: Seq<Seq<Seq<char>>>,
    start: (u16, usize),
    end: (u16, usize),
    area: Rect,
) -> Seq<char> {
    if area.width <= 2 {
        Seq::empty()
    } else {
        joined(
            Seq::new(
                copied_lines(start.1 as nat, end.1 as nat),
                |off: int| selected_line(cells, off, start, end, area),
            ),
            "\n"@,
        )
    }
}

/// The text of the selection. `cells` holds the lines of the content from the
/// first selected one on, as they are drawn between the margins.
pub fn extract_selection_text(cells: &Vec<Vec<String>>, start: (u16, usize), end: (u16, usize), area: Rect) -> (r: String)
    requires
        area.fits(),
        start.1 + MAX_COPY_LINES <= usize::MAX,
    ensures
        r@ == selected_text(grid(cells@), start, end, area),
{
    if area.width <= 2 {
        return String::new();
    }
    let left: u16 = area.x + 1;
    let right: u16 = area.x + area.width - 1;
    let span: usize = copy_span(start, end);
    let ghost all = grid(cells@);
    let ghost goal = Seq::new(
        copied_lines(start.1 as nat, end.1 as nat),
        |off: int| selected_line(all, off, start, end, area),
    );
    let none: Vec<String> = Vec::new();
    assert(texts(none@) =~= Seq::<Seq<char>>::empty());
    assert(all.len() == cells@.len());
    let mut out: Vec<String> = Vec::new();
    let mut off: usize = 0;
    assert(texts(out@) =~= goal.take(0));
    while off < span
        invariant
            area.fits(),
            area.width > 2,
            left == area.x + 1,
            right == area.x + area.width - 1,
            off <= span,
            span == copied_lines(start.1 as nat, end.1 as nat),
            start.1 + MAX_COPY_LINES <= usize::MAX,
            all == grid(cells@),
            all.len() == cells@.len(),
            texts(none@) == Seq::<Seq<char>>::empty(),
            goal == Seq::new(
                copied_lines(start.1 as nat, end.1 as nat),
                |off: int| selected_line(all, off, start, end, area),
            ),
            texts(out@) == goal.take(off as int),
        decreases span - off,
    {
        let (c0, c1) = selection_line_span(start.1 + off, start, end, left, right);
        let row: &Vec<String> = if off < cells.len() {
            &cells[off]
        } else {
            &none
        };
        assert(texts(row@) == (if 0 <= off < all.len() {
            all[off as int]
        } else {
            Seq::empty()
        }));
        let text = text_of_cells(row, (c0 - left) as usize, (c1 - left) as usize);
        let line = trim_end(text.as_str());
        assert(line@ == goal[off as int]);
        out.push(line);
        assert(goal.take(off + 1) =~= goal.take(off as int).push(goal[off as int]));
        off += 1;
    }
    assert(goal.take(off as int) =~= goal);
    join(&out, "\n")
}

/// What is to be done about a selection in this frame.
#[derive(Debug, Clone, Copy, PartialEq, Eq, Structural)]
pub enum SelectionStep {
    /// There is none.
    Nothing,
    /// It no longer fits the screen: forget it.
    Forget,
    /// Copy its text.
    Copy,
    /// Show it.
    Show,
}

/// What is to be done about a selection.
pub open spec fn next_step(sel: Option<TextSelection>, area: Option<Rect>) -> SelectionStep {
    match sel {
        None => SelectionStep::Nothing,
        Some(s) => match area {
            None => SelectionStep::Forget,
            Some(a) => if a.width < 3 || a.height < 3 || s.area_width != a.width {
                SelectionStep::Forget
            } else if s.finalize {
                SelectionStep::Copy
            } else {
                SelectionStep::Show
            },
        },
    }
}

/// What is to be done about a selection. One that was made at another width
/// names other lines now, and is forgotten.
pub fn selection_step(sel: Option<TextSelection>, area: Option<Rect>) -> (r: SelectionStep)
    ensures
        r == next_step(sel, area),
{
    match sel {
        None => SelectionStep::Nothing,
        Some(s) => match area {
            None => SelectionStep::Forget,
            Some(a) => if a.width < 3 || a.height < 3 || s.area_width != a.width {
                SelectionStep::Forget
            } else if s.finalize {
                SelectionStep::Copy
            } else {
                SelectionStep::Show
            },
        },
    }
}

/// The selection once its text has been extracted: a blank one is forgotten,
/// any other stays on screen as copied.
pub open spec fn once_copied(sel: TextSelection, text: Seq<char>) -> Option<TextSelection> {
    if trimmed(text).len() == 0 {
        None
    } else {
        Some(TextSelection { finalize: false, copied: true, dragged: false, ..sel })
    }
}

/// The selection once its text has been extracted. What comes back is to be
/// copied where it is not forgotten.
pub fn after_extraction(sel: TextSelection, text: &str) -> (r: Option<TextSelection>)
    ensures
        r == once_copied(sel, text@),
{
    if char_count(trim(text).as_str()) == 0 {
        None
    } else {
        Some(TextSelection { finalize: false, copied: true, dragged: false, ..sel })
    }
}

// ── showing ─────────────────────────────────────────────────────────────

/// The columns to light up on row `i` of the area, where there are any.
pub open spec fn lit_row(sel: TextSelection, area: Rect, scroll: nat, screen: Rect, i: nat) -> Seq<(u16, u16, u16)> {
    let (start, end) = sel.ends();
    let line = scroll + i;
    let row = area.y + i;
    let (c0, c1) = line_span(
        line as int,
        (start.0 as int, start.1 as int),
        (end.0 as int, end.1 as int),
        area.x + 1,
        area.x + area.width - 1,
    );
    let edge = screen.x + screen.width;
    let stop = if c1 > edge {
        edge
    } else {
        c1
    };
    if start.1 <= line <= end.1 && row < screen.y + screen.height && c0 < stop {
        seq![(row as u16, c0 as u16, stop as u16)]
    } else {
        Seq::empty()
    }
}

/// The columns to light up on the first `n` rows of the area.
pub open spec fn lit_rows(sel: TextSelection, area: Rect, scroll: nat, screen: Rect, n: nat) -> Seq<(u16, u16, u16)>
    decreases n,
{
    if n == 0 {
        Seq::empty()
    } else {
        lit_rows(sel, area, scroll, screen, (n - 1) as nat) + lit_row(
            sel,
            area,
            scroll,
            screen,
            (n - 1) as nat,
        )
    }
}

/// The part of a selection that is on screen: rows with the columns to light
/// up, the last one left out.
pub fn visible_selection(sel: &TextSelection, area: Rect, scroll: usize, screen: Rect) -> (r: Vec<(u16, u16, u16)>)
    requires
        area.fits(),
        screen.fits(),
        area.width >= 3,
        scroll + area.height <= usize::MAX,
    ensures
        r@ == lit_rows(*sel, area, scroll as nat, screen, area.height as nat),
{
    let (start, end) = sel.ordered();
    let left: u16 = area.x + 1;
    let right: u16 = area.x + area.width - 1;
    let edge: u16 = screen.x + screen.width;
    let floor: u16 = screen.y + screen.height;
    let mut out: Vec<(u16, u16, u16)> = Vec::new();
    let mut i: u16 = 0;
    assert(out@ =~= lit_rows(*sel, area, scroll as nat, screen, 0));
    while i < area.height
        invariant
            area.fits(),
            screen.fits(),
            area.width >= 3,
            scroll + area.height <= usize::MAX,
            (start, end) == sel.ends(),
            left == area.x + 1,
            right == area.x + area.width - 1,
            edge == screen.x + screen.width,
            floor == screen.y + screen.height,
            i <= area.height,
            out@ == lit_rows(*sel, area, scroll as nat, screen, i as nat),
        decreases area.height - i,
    {
        let line: usize = scroll + i as usize;
        let row: u16 = area.y + i;
        let (c0, c1) = selection_line_span(line, start, end, left, right);
        let stop: u16 = if c1 > edge {
            edge
        } else {
            c1
        };
        let ghost before = out@;
        if start.1 <= line && line <= end.1 && row < floor && c0 < stop {
            out.push((row, c0, stop));
            assert(before.push((row, c0, stop)) =~= before + seq![(row, c0, stop)]);
        } else {
            assert(before =~= before + Seq::<(u16, u16, u16)>::empty());
        }
        i += 1;
    }
    out
}

/// A stretch of cells reads as its first half, then its second, and a single cell as
/// what stands in it.
pub proof fn law_cells_read_from_left_to_right(cells: Seq<Seq<char>>, a: int, b: int, c: int)
    requires
        0 <= a <= b <= c,
    ensures
        cells_text(cells, a, b) + cells_text(cells, b, c) == cells_text(cells, a, c),
        a < cells.len() ==> cells_text(cells, a, a + 1) == cells[a],
        a >= cells.len() ==> cells_text(cells, a, a + 1).len() == 0,
    decreases c - b,
{
    reveal_with_fuel(cells_text, 2);
    assert(Seq::<char>::empty() + cells[a] =~= cells[a]);
    if b == c {
        assert(cells_text(cells, a, b) + cells_text(cells, b, c) =~= cells_text(cells, a, c));
    } else {
        law_cells_read_from_left_to_right(cells, a, b, c - 1);
        assert(cells_text(cells, a, b) + cells_text(cells, b, c) =~= cells_text(cells, a, c));
    }
}

/// A selection within one line copies exactly the cells between its ends, both of
/// them too; of a selection over several lines, the lines between are copied whole, the
/// first from where the selection begins, the last to where it ends.
pub proof fn law_selected_cells_are_copied(
    cells: Seq<Seq<Seq<char>>>,
    off: int,
    start: (u16, usize),
    end: (u16, usize),
    area: Rect,
)
    requires
        area.fits(),
        area.width > 2,
        area.x + 1 <= start.0 < area.x + area.width - 1,
        area.x + 1 <= end.0 < area.x + area.width - 1,
        0 <= off < cells.len(),
        start.1 + off <= end.1,
    ensures
        ({
            let left = area.x + 1;
            let from = if off == 0 {
                start.0 - left
            } else {
                0
            };
            let to = if start.1 + off == end.1 {
                end.0 + 1 - left
            } else {
                area.width - 2
            };
            selected_line(cells, off, start, end, area) == trimmed_end(cells_text(cells[off], from, to))
        }),
{
}

/// It does not matter in which direction a selection is made.
pub proof fn law_selection_has_no_direction(sel: TextSelection)
    ensures
        (TextSelection { anchor: sel.head, head: sel.anchor, ..sel }).ends() == sel.ends(),
        !point_before(sel.ends().1, sel.ends().0),
{
}

/// A line that is copied stands on a line of its own in the copy.
pub proof fn law_every_selected_line_is_copied(
    cells: Seq<Seq<Seq<char>>>,
    off: int,
    start: (u16, usize),
    end: (u16, usize),
    area: Rect,
)
    requires
        area.width > 2,
        0 <= off <= end.1 - start.1,
        off < MAX_COPY_LINES,
    ensures
        crate::slicing::has_text(
            selected_text(cells, start, end, area),
            selected_line(cells, off, start, end, area),
        ),
        end.1 - start.1 < MAX_COPY_LINES ==> copied_lines(start.1 as nat, end.1 as nat) == end.1 - start.1 + 1,
{
    let all = Seq::new(
        copied_lines(start.1 as nat, end.1 as nat),
        |off: int| selected_line(cells, off, start, end, area),
    );
    assert(all[off] == selected_line(cells, off, start, end, area));
    crate::showing::lemma_joined_has(all, "\n"@, off);
}

/// A selection is copied once; afterwards it is only shown. One that was made on a
/// screen of another width is forgotten.
pub proof fn law_selections_are_copied_once(sel: TextSelection, area: Rect, text: Seq<char>)
    requires
        area.width >= 3,
        area.height >= 3,
    ensures
        sel.area_width == area.width && sel.finalize ==> next_step(Some(sel), Some(area)) is Copy,
        sel.area_width == area.width && !sel.finalize ==> next_step(Some(sel), Some(area)) is Show,
        sel.area_width != area.width ==> next_step(Some(sel), Some(area)) is Forget,
        sel.area_width == area.width && trimmed(text).len() > 0 ==> next_step(once_copied(sel, text), Some(area)) is Show
            && once_copied(sel, text)->0.copied && once_copied(sel, text)->0.ends() == sel.ends(),
        trimmed(text).len() == 0 ==> next_step(once_copied(sel, text), Some(area)) is Nothing,
{
}

/// What is lit on a line is what is copied of it: the same columns, on every line of the
/// selection that is on the screen, and on no other.
pub proof fn law_what_is_lit_is_copied(sel: TextSelection, area: Rect, scroll: nat, screen: Rect, i: nat)
    requires
        area.fits(),
        screen.fits(),
        area.width > 2,
        screen.x <= area.x,
        area.x + area.width <= screen.x + screen.width,
        area.y + i < screen.y + screen.height,
        scroll + i <= usize::MAX,
    ensures
        ({
            let (start, end) = sel.ends();
            let lit = lit_row(sel, area, scroll, screen, i);
            let (c0, c1) = line_span(
                (scroll + i) as int,
                (start.0 as int, start.1 as int),
                (end.0 as int, end.1 as int),
                area.x + 1,
                area.x + area.width - 1,
            );
            &&& lit.len() <= 1
            &&& lit.len() == 1 ==> lit[0].0 == area.y + i && lit[0].1 == c0 && lit[0].2 == c1 && start.1 <= scroll + i
                <= end.1
            &&& start.1 <= scroll + i <= end.1 && c0 < c1 ==> lit.len() == 1
        }),
{
}

/// A click asks for the line or the word under it: a click on a word selects columns
/// that hold the click.
pub proof fn law_clicks_select_what_is_under_them(req: SelectRequest, area: Rect, cs: Seq<char>, scroll: nat)
    requires
        area.fits(),
        area.width >= 3,
        area.height >= 3,
        cs.len() == area.width - 2,
        area.covers(req.col, req.row),
        area.x < req.col < area.x + area.width - 1,
        scroll + area.height <= usize::MAX,
    ensures
        clicked_selection(req, area, cs, scroll) matches Some(sel) && sel.anchor.1 == scroll + (req.row - area.y)
            && sel.head.1 == sel.anchor.1 && sel.anchor.0 <= req.col <= sel.head.0 && sel.finalize && (req.kind is Line
            ==> sel.anchor.0 == area.x + 1 && sel.head.0 == area.x + area.width - 2),
{
    let i = req.col - (area.x + 1);
    if in_word(cs[i]) {
        law_word_is_whole(cs, i);
    }
}

/// Every selected line on the screen is lit, and nothing else is.
pub proof fn law_selected_lines_are_lit(sel: TextSelection, area: Rect, scroll: nat, screen: Rect, n: nat, k: nat, j: int)
    ensures
        k < n && lit_row(sel, area, scroll, screen, k).len() > 0 ==> lit_rows(sel, area, scroll, screen, n).contains(
            lit_row(sel, area, scroll, screen, k)[0],
        ),
        0 <= j < lit_rows(sel, area, scroll, screen, n).len() ==> exists|i: nat|
            i < n && (#[trigger] lit_row(sel, area, scroll, screen, i)) == seq![
                lit_rows(sel, area, scroll, screen, n)[j],
            ],
    decreases n,
{
    if n > 0 {
        let before = lit_rows(sel, area, scroll, screen, (n - 1) as nat);
        let last = lit_row(sel, area, scroll, screen, (n - 1) as nat);
        let all = lit_rows(sel, area, scroll, screen, n);
        law_selected_lines_are_lit(sel, area, scroll, screen, (n - 1) as nat, k, j);
        if k < n && lit_row(sel, area, scroll, screen, k).len() > 0 {
            let row = lit_row(sel, area, scroll, screen, k)[0];
            if k == n - 1 {
                assert(all[before.len() as int] == row);
            } else {
                let i = choose|i: int| 0 <= i < before.len() && before[i] == row;
                assert(all[i] == row);
            }
        }
        if 0 <= j < all.len() {
            if j < before.len() {
                assert(all[j] == before[j]);
            } else {
                assert(all[j] == last[j - before.len()]);
                assert(last =~= seq![all[j]]);
            }
        }
    }
}

} // verus!
