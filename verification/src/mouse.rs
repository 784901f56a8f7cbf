//! The mouse over the transcript: scrolling, dragging over text, and clicks that
//! belong together.
use vstd::prelude::*;

use crate::layout::Rect;
use crate::selection::{SelectKind, SelectRequest, TextSelection};
use crate::time::Instant;

verus! {

/// Clicks further apart in time do not belong together.
pub const MULTI_CLICK_MS: u64 = 500;

/// Clicks further apart on the screen do not belong together.
pub const MULTI_CLICK_DIST: u16 = 1;

/// Rows that one turn of the wheel scrolls.
pub const WHEEL_ROWS: usize = 3;

// ── points ──────────────────────────────────────────────────────────────

/// How far two coordinates are apart.
pub open spec fn apart(a: int, b: int) -> int {
    if a < b {
        b - a
    } else {
        a - b
    }
}

/// How far two coordinates are apart.
fn distance(a: u16, b: u16) -> (r: u16)
    ensures
        r == apart(a as int, b as int),
{
    if a < b {
        b - a
    } else {
        a - b
    }
}

/// The pointer has moved far enough to mean a selection: to another line, or by
/// two columns.
pub open spec fn moved(anchor: (u16, usize), head: (u16, usize)) -> bool {
    anchor.1 != head.1 || apart(anchor.0 as int, head.0 as int) >= 2
}

/// Whether the pointer has moved far enough from where the button was pressed to
/// mean a selection, and not a click of an unsteady hand.
pub fn selection_started(anchor: (u16, usize), head: (u16, usize)) -> (r: bool)
    ensures
        r == moved(anchor, head),
{
    anchor.1 != head.1 || distance(anchor.0, head.0) >= 2
}

/// The line of the content under a row of the screen.
pub open spec fn content_line(area: Option<Rect>, scroll_offset: usize, row: u16) -> int {
    let top = match area {
        Some(a) => a.y as int,
        None => 0,
    };
    scroll_offset + (if row > top {
        row - top
    } else {
        0
    })
}

/// The line of the content under a row of the screen, which does not change
/// when the transcript is scrolled.
pub fn selection_content_line(area: Option<Rect>, scroll_offset: usize, row: u16) -> (r: usize)
    requires
        scroll_offset + u16::MAX <= usize::MAX,
    ensures
        r == content_line(area, scroll_offset, row),
{
    let top: u16 = match area {
        Some(a) => a.y,
        None => 0,
    };
    scroll_offset + row.saturating_sub(top) as usize
}

/// How many rows the pointer stands beyond the edge of the transcript: fewer
/// than none above it, more than none below it. The first row counts as above
/// when there is something to scroll back to.
pub open spec fn overrun(area: Option<Rect>, scroll_offset: usize, row: u16) -> Option<int> {
    match area {
        None => None,
        Some(a) => {
            let bottom = a.y + a.height;
            if row < a.y {
                Some(row - a.y)
            } else if row == a.y && scroll_offset > 0 {
                Some(-1)
            } else if row >= bottom {
                Some(row - bottom + 1)
            } else {
                None
            }
        },
    }
}

/// How many rows the pointer stands beyond the edge of the transcript.
pub fn drag_autoscroll_overrun(area: Option<Rect>, scroll_offset: usize, row: u16) -> (r: Option<i32>)
    ensures
        match r {
            Some(n) => overrun(area, scroll_offset, row) == Some(n as int),
            None => overrun(area, scroll_offset, row) is None,
        },
{
    match area {
        None => None,
        Some(a) => {
            let top: i32 = a.y as i32;
            let bottom: i32 = top + a.height as i32;
            let at: i32 = row as i32;
            if row < a.y || (row == a.y && scroll_offset > 0) {
                if at - top < -1 {
                    Some(at - top)
                } else {
                    Some(-1)
                }
            } else if at >= bottom {
                Some(at - bottom + 1)
            } else {
                None
            }
        },
    }
}

// ── scrolling ───────────────────────────────────────────────────────────

/// Where the transcript is scrolled to.
#[derive(Debug, Clone, Copy, PartialEq, Eq, Structural)]
pub struct Scroller {
    pub scroll_offset: usize,
    pub total_lines: usize,
    pub viewport_height: usize,
    /// The transcript stays at its end as it grows.
    pub follow_bottom: bool,
    /// How fast the transcript is still gliding, in thousandths of a row per
    /// second.
    pub scroll_velocity: i64,
}

impl Scroller {
    /// The last row that can stand at the top.
    pub open spec fn last_row(self) -> int {
        if self.total_lines > self.viewport_height {
            self.total_lines - self.viewport_height
        } else {
            0
        }
    }

    /// The transcript moved back.
    pub open spec fn back(self, rows: usize) -> Scroller {
        Scroller {
            scroll_offset: (if self.scroll_offset > rows {
                self.scroll_offset - rows
            } else {
                0
            }) as usize,
            follow_bottom: false,
            ..self
        }
    }

    /// The transcript moved on, but not behind its end.
    pub open spec fn on(self, rows: usize) -> Scroller {
        Scroller {
            scroll_offset: (if self.scroll_offset + rows < self.last_row() {
                self.scroll_offset + rows
            } else {
                self.last_row()
            }) as usize,
            follow_bottom: self.follow_bottom || self.scroll_offset + rows >= self.last_row(),
            ..self
        }
    }

    pub fn scroll_up(&mut self, rows: usize)
        ensures
            *final(self) == old(self).back(rows),
    {
        self.scroll_offset = self.scroll_offset.saturating_sub(rows);
        self.follow_bottom = false;
    }

    pub fn scroll_down(&mut self, rows: usize)
        ensures
            *final(self) == old(self).on(rows),
    {
        let last: usize = self.total_lines.saturating_sub(self.viewport_height);
        if self.scroll_offset < last && rows < last - self.scroll_offset {
            self.scroll_offset = self.scroll_offset + rows;
        } else {
            self.scroll_offset = last;
            self.follow_bottom = true;
        }
    }
}

impl Scroller {
    /// The transcript at its end, where it stays.
    pub open spec fn at_bottom(self) -> Scroller {
        Scroller { scroll_offset: self.last_row() as usize, follow_bottom: true, ..self }
    }

    pub fn scroll_to_bottom(&mut self)
        ensures
            *final(self) == old(self).at_bottom(),
    {
        self.scroll_offset = self.total_lines.saturating_sub(self.viewport_height);
        self.follow_bottom = true;
    }
}

/// Scrolling back and on again by as much shows the same rows.
pub proof fn law_scrolling_is_undone(s: Scroller, rows: usize)
    requires
        rows <= s.scroll_offset <= s.last_row(),
    ensures
        s.back(rows).on(rows).scroll_offset == s.scroll_offset,
{
}

// ── gestures ────────────────────────────────────────────────────────────

/// The last click, and how many belong together with it.
#[derive(Debug, Clone, Copy, PartialEq, Eq, Structural)]
pub struct Click {
    pub col: u16,
    pub row: u16,
    pub count: u32,
    pub at: Instant,
}

/// What the mouse is doing.
#[derive(Debug, Clone, Copy)]
pub struct Gesture {
    pub scroll: Scroller,
    pub selection: Option<TextSelection>,
    /// How fast the transcript scrolls while the pointer is held beyond its edge.
    pub autoscroll: Option<i32>,
    pub last_click: Option<Click>,
    pub select_request: Option<SelectRequest>,
}

/// What the mouse reports. Only the left button is of interest.
#[derive(Debug, Clone, Copy, PartialEq, Eq, Structural)]
pub enum MouseKind {
    ScrollUp,
    ScrollDown,
    DragLeft,
    UpLeft,
    DownLeft,
    Other,
}

/// A report of the mouse, and what it is about.
#[derive(Debug, Clone, Copy, PartialEq, Eq, Structural)]
pub struct MouseReport {
    pub kind: MouseKind,
    pub col: u16,
    pub row: u16,
    pub now: Instant,
    /// Where the transcript stands on the screen.
    pub messages_area: Option<Rect>,
    /// A tool call stands under the pointer.
    pub on_tool: bool,
    /// Dragging selects and copies.
    pub copy_on_select: bool,
}

impl MouseReport {
    /// The line of the content under the pointer.
    pub open spec fn line(self, g: Gesture) -> usize {
        content_line(self.messages_area, g.scroll.scroll_offset, self.row) as usize
    }

    /// The pointer stands over the transcript, where dragging selects.
    pub open spec fn over_text(self) -> bool {
        self.copy_on_select && self.messages_area is Some && self.messages_area->0.covers(self.col, self.row)
    }

    /// How many clicks belong together with this one.
    pub open spec fn clicks(self, last: Option<Click>) -> u32 {
        match last {
            Some(c) => if self.now.since(c.at) / 1_000_000 < MULTI_CLICK_MS && apart(c.col as int, self.col as int)
                <= MULTI_CLICK_DIST && apart(c.row as int, self.row as int) <= MULTI_CLICK_DIST {
                if c.count == u32::MAX {
                    u32::MAX
                } else {
                    (c.count + 1) as u32
                }
            } else {
                1
            },
            None => 1,
        }
    }

    /// How many clicks belong together with this one.
    pub fn click_count(&self, last: Option<Click>) -> (r: u32)
        ensures
            r == self.clicks(last),
    {
        match last {
            Some(c) => if self.now.duration_since(c.at).as_millis() < MULTI_CLICK_MS as u128 && distance(
                c.col,
                self.col,
            ) <= MULTI_CLICK_DIST && distance(c.row, self.row) <= MULTI_CLICK_DIST {
                c.count.saturating_add(1)
            } else {
                1
            },
            None => 1,
        }
    }
}

/// The selection while the pointer is dragged.
pub open spec fn dragged_to(sel: TextSelection, head: (u16, usize)) -> TextSelection {
    TextSelection { head, dragged: sel.dragged || moved(sel.anchor, head), ..sel }
}

/// What the mouse is doing after it was dragged. Only a selection scrolls the
/// transcript at its edge.
pub open spec fn after_drag(g: Gesture, m: MouseReport) -> Gesture {
    let selection = match g.selection {
        Some(sel) => Some(dragged_to(sel, (m.col, m.line(g)))),
        None => None,
    };
    Gesture {
        selection,
        autoscroll: if selection is Some && selection->0.dragged {
            match overrun(m.messages_area, g.scroll.scroll_offset, m.row) {
                Some(n) => Some(n as i32),
                None => None,
            }
        } else {
            None
        },
        ..g
    }
}

/// What the mouse is doing after the button was pressed over the transcript:
/// clicks that belong together select a word or a line, and another one is
/// where a selection may begin.
pub open spec fn after_press(g: Gesture, m: MouseReport) -> Gesture {
    let count = m.clicks(g.last_click);
    let last_click = Some(Click { col: m.col, row: m.row, count, at: m.now });
    if !m.on_tool && count >= 2 {
        Gesture {
            autoscroll: None,
            last_click,
            selection: None,
            select_request: Some(
                SelectRequest {
                    kind: if count >= 3 {
                        SelectKind::Line
                    } else {
                        SelectKind::Word
                    },
                    col: m.col,
                    row: m.row,
                },
            ),
            ..g
        }
    } else {
        Gesture {
            autoscroll: None,
            last_click,
            selection: Some(
                TextSelection {
                    anchor: (m.col, m.line(g)),
                    head: (m.col, m.line(g)),
                    area_width: m.messages_area->0.width,
                    dragged: false,
                    finalize: false,
                    copied: false,
                },
            ),
            ..g
        }
    }
}

/// What the mouse is doing after a report, and whether that was a click.
pub open spec fn after_mouse(g: Gesture, m: MouseReport) -> (Gesture, bool) {
    match m.kind {
        MouseKind::ScrollUp => (
            Gesture { scroll: Scroller { scroll_velocity: 0, ..g.scroll.back(WHEEL_ROWS) }, ..g },
            false,
        ),
        MouseKind::ScrollDown => (
            Gesture { scroll: Scroller { scroll_velocity: 0, ..g.scroll.on(WHEEL_ROWS) }, ..g },
            false,
        ),
        MouseKind::DragLeft => (after_drag(g, m), false),
        MouseKind::UpLeft => match g.selection {
            Some(sel) => if sel.dragged {
                (
                    Gesture {
                        selection: Some(TextSelection { finalize: true, ..sel }),
                        autoscroll: None,
                        ..g
                    },
                    false,
                )
            } else {
                (Gesture { selection: None, autoscroll: None, ..g }, true)
            },
            None => (Gesture { autoscroll: None, ..g }, false),
        },
        MouseKind::DownLeft => if m.over_text() {
            (after_press(g, m), false)
        } else {
            (Gesture { selection: None, autoscroll: None, ..g }, true)
        },
        MouseKind::Other => (g, false),
    }
}

fn drag(g: &mut Gesture, m: &MouseReport)
    requires
        old(g).scroll.scroll_offset + u16::MAX <= usize::MAX,
    ensures
        *final(g) == after_drag(*old(g), *m),
{
    let line: usize = selection_content_line(m.messages_area, g.scroll.scroll_offset, m.row);
    let mut selecting = false;
    if let Some(sel) = g.selection {
        let head = (m.col, line);
        let dragged = sel.dragged || selection_started(sel.anchor, head);
        g.selection = Some(
            TextSelection {
                anchor: sel.anchor,
                head,
                area_width: sel.area_width,
                dragged,
                finalize: sel.finalize,
                copied: sel.copied,
            },
        );
        selecting = dragged;
    }
    g.autoscroll = if selecting {
        drag_autoscroll_overrun(m.messages_area, g.scroll.scroll_offset, m.row)
    } else {
        None
    };
}

fn press(g: &mut Gesture, m: &MouseReport, width: u16)
    requires
        old(g).scroll.scroll_offset + u16::MAX <= usize::MAX,
        m.messages_area is Some,
        m.messages_area->0.width == width,
    ensures
        *final(g) == after_press(*old(g), *m),
{
    let count: u32 = m.click_count(g.last_click);
    g.autoscroll = None;
    g.last_click = Some(Click { col: m.col, row: m.row, count, at: m.now });
    if !m.on_tool && count >= 2 {
        let kind = if count >= 3 {
            SelectKind::Line
        } else {
            SelectKind::Word
        };
        g.select_request = Some(SelectRequest { kind, col: m.col, row: m.row });
        g.selection = None;
    } else {
        let line: usize = selection_content_line(m.messages_area, g.scroll.scroll_offset, m.row);
        g.selection = Some(
            TextSelection {
                anchor: (m.col, line),
                head: (m.col, line),
                area_width: width,
                dragged: false,
                finalize: false,
                copied: false,
            },
        );
    }
}

/// Follow a report of the mouse. The result says that it was a click, whose
/// action is then to be run: on release, so that a drag does not run one too.
pub fn handle_mouse(g: &mut Gesture, m: &MouseReport) -> (r: bool)
    requires
        old(g).scroll.scroll_offset + u16::MAX <= usize::MAX,
    ensures
        (*final(g), r) == after_mouse(*old(g), *m),
{
    match m.kind {
        MouseKind::ScrollUp => {
            g.scroll.scroll_velocity = 0;
            g.scroll.scroll_up(WHEEL_ROWS);
            false
        },
        MouseKind::ScrollDown => {
            g.scroll.scroll_velocity = 0;
            g.scroll.scroll_down(WHEEL_ROWS);
            false
        },
        MouseKind::DragLeft => {
            drag(g, m);
            false
        },
        MouseKind::UpLeft => {
            g.autoscroll = None;
            match g.selection {
                Some(sel) => if sel.dragged {
                    g.selection = Some(
                        TextSelection {
                            anchor: sel.anchor,
                            head: sel.head,
                            area_width: sel.area_width,
                            dragged: sel.dragged,
                            finalize: true,
                            copied: sel.copied,
                        },
                    );
                    false
                } else {
                    g.selection = None;
                    true
                },
                None => false,
            }
        },
        MouseKind::DownLeft => {
            if m.copy_on_select {
                if let Some(area) = m.messages_area {
                    if area.contains(m.col, m.row) {
                        press(g, m, area.width);
                        return false;
                    }
                }
            }
            g.autoscroll = None;
            g.selection = None;
            true
        },
        MouseKind::Other => false,
    }
}

// ── laws ────────────────────────────────────────────────────────────────

/// Pressing and releasing the button without moving more than a column is a
/// click, and leaves no selection.
pub proof fn law_unsteady_click_is_a_click(g: Gesture, press: MouseReport, release: MouseReport)
    requires
        press.kind is DownLeft,
        release.kind is UpLeft,
        press.over_text(),
        press.on_tool || press.clicks(g.last_click) < 2,
    ensures
        ({
            let held = after_mouse(g, press).0;
            let (freed, clicked) = after_mouse(held, release);
            clicked && freed.selection is None
        }),
{
}

/// A drag on a line that moves by one column at most does not begin a selection,
/// and does not scroll.
pub proof fn law_jitter_does_not_select(g: Gesture, m: MouseReport)
    requires
        m.kind is DragLeft,
        g.selection is Some,
        !g.selection->0.dragged,
        g.selection->0.anchor.1 == m.line(g),
        apart(g.selection->0.anchor.0 as int, m.col as int) <= 1,
    ensures
        ({
            let after = after_mouse(g, m).0;
            !after.selection->0.dragged && after.autoscroll is None
        }),
{
}

/// Inside the transcript, below its first row, nothing scrolls by itself.
pub proof fn law_inside_nothing_scrolls(area: Rect, scroll_offset: usize, row: u16)
    requires
        area.y < row < area.y + area.height,
    ensures
        overrun(Some(area), scroll_offset, row) is None,
{
}

/// With copying on selection switched off, the mouse never begins a selection.
pub proof fn law_copy_can_be_switched_off(g: Gesture, m: MouseReport)
    requires
        !m.copy_on_select,
        g.selection is None,
    ensures
        after_mouse(g, m).0.selection is None,
{
}

/// A press over the text, a drag and a release select what lies between them: the
/// selection begins where the button went down and ends where it was let go, and is
/// then copied. No click comes of it.
pub proof fn law_dragging_selects(g: Gesture, down: MouseReport, drag: MouseReport, up: MouseReport)
    requires
        down.kind is DownLeft,
        drag.kind is DragLeft,
        up.kind is UpLeft,
        down.over_text(),
        down.clicks(g.last_click) == 1,
        g.scroll.scroll_offset + u16::MAX <= usize::MAX,
        moved((down.col, down.line(g)), (drag.col, drag.line(g))),
    ensures
        ({
            let a = after_mouse(g, down).0;
            let b = after_mouse(a, drag).0;
            let (c, click) = after_mouse(b, up);
            &&& !click
            &&& c.selection matches Some(sel) && sel.anchor == (down.col, down.line(g)) && sel.head == (
                drag.col,
                drag.line(g),
            ) && sel.finalize && sel.dragged && !sel.copied
            &&& c.autoscroll is None
            &&& c.scroll == g.scroll
        }),
{
}

/// Two clicks close to each other and soon after each other ask for the word under
/// them, three for the line; later ones, or ones elsewhere, begin anew.
pub proof fn law_repeated_clicks_select(g: Gesture, m: MouseReport, last: Click)
    requires
        m.kind is DownLeft,
        m.over_text(),
        !m.on_tool,
        g.last_click == Some(last),
        last.count < u32::MAX,
    ensures
        ({
            let near = apart(last.col as int, m.col as int) <= 1 && apart(last.row as int, m.row as int) <= 1;
            let soon = m.now.since(last.at) < 500_000_000;
            let after = after_mouse(g, m).0;
            &&& near && soon && last.count == 1 ==> (after.select_request matches Some(req) && req.kind is Word
                && req.col == m.col && req.row == m.row && after.selection is None)
            &&& near && soon && last.count >= 2 ==> (after.select_request matches Some(req) && req.kind is Line
                && req.col == m.col && req.row == m.row)
            &&& !near || !soon ==> (after.last_click matches Some(c) && c.count == 1 && after.select_request
                == g.select_request && after.selection is Some)
            &&& after.last_click matches Some(c) && c.col == m.col && c.row == m.row && c.at == m.now
        }),
{
}

/// The wheel moves the transcript by three rows, as far as there are any, and stops it
/// gliding; up lets go of the end, and down to the end holds on to it again.
pub proof fn law_wheel_moves_three_rows(g: Gesture, m: MouseReport)
    requires
        g.scroll.scroll_offset <= g.scroll.last_row(),
    ensures
        m.kind is ScrollUp ==> {
            let after = after_mouse(g, m).0.scroll;
            after.scroll_offset == (if g.scroll.scroll_offset >= 3 {
                g.scroll.scroll_offset - 3
            } else {
                0
            }) && !after.follow_bottom && after.scroll_velocity == 0
        },
        m.kind is ScrollDown ==> {
            let after = after_mouse(g, m).0.scroll;
            &&& after.scroll_velocity == 0
            &&& g.scroll.scroll_offset + 3 <= g.scroll.last_row() ==> after.scroll_offset == g.scroll.scroll_offset + 3
            &&& g.scroll.scroll_offset + 3 >= g.scroll.last_row() ==> after.scroll_offset == g.scroll.last_row()
                && after.follow_bottom
        },
        m.kind is ScrollUp || m.kind is ScrollDown ==> after_mouse(g, m).0.selection == g.selection,
{
}

/// The line under the pointer is found on the screen again: it is so many rows below
/// the top of the transcript as it is lines below the first one shown.
pub proof fn law_pointer_and_line_agree(area: Rect, scroll_offset: usize, row: u16)
    requires
        area.y <= row,
    ensures
        content_line(Some(area), scroll_offset, row) - scroll_offset == row - area.y,
        content_line(None, scroll_offset, row) == scroll_offset + row,
{
}

/// Beyond the edge, the transcript rolls towards the pointer, and faster the farther
/// out it is.
pub proof fn law_rolls_towards_the_pointer(area: Rect, scroll_offset: usize, row: u16, farther: u16)
    ensures
        farther < row < area.y ==> overrun(Some(area), scroll_offset, farther)->0 < overrun(
            Some(area),
            scroll_offset,
            row,
        )->0 < 0,
        area.y + area.height <= row < farther && area.height > 0 ==> 0 < overrun(Some(area), scroll_offset, row)->0
            < overrun(Some(area), scroll_offset, farther)->0,
{
}

/// At the bottom the last line is the last that is shown: nothing lies below, and the
/// window is full where there is enough to fill it.
pub proof fn law_the_bottom_shows_the_last_line(s: Scroller)
    ensures
        s.at_bottom().follow_bottom,
        s.total_lines >= s.viewport_height ==> s.at_bottom().scroll_offset + s.viewport_height == s.total_lines,
        s.total_lines < s.viewport_height ==> s.at_bottom().scroll_offset == 0,
        s.at_bottom().total_lines == s.total_lines,
{
}

} // verus!
