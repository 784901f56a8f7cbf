//! Rectangles of the screen, where the dialogs stand, and splitting.
use vstd::prelude::*;

use ratatui::layout::{Constraint, Direction, Layout};

verus! {

/// A rectangle of cells.
#[derive(Debug, Clone, Copy, PartialEq, Eq, Structural)]
pub struct Rect {
    pub x: u16,
    pub y: u16,
    pub width: u16,
    pub height: u16,
}

impl Rect {
    /// The far edges are still coordinates.
    pub open spec fn fits(self) -> bool {
        self.x + self.width <= u16::MAX && self.y + self.height <= u16::MAX
    }

    /// The rectangle, made smaller where an edge would lie too far out.
    pub open spec fn within_bounds(x: u16, y: u16, width: u16, height: u16) -> Rect {
        Rect {
            x,
            y,
            width: if x + width > u16::MAX {
                (u16::MAX - x) as u16
            } else {
                width
            },
            height: if y + height > u16::MAX {
                (u16::MAX - y) as u16
            } else {
                height
            },
        }
    }

    pub fn new(x: u16, y: u16, width: u16, height: u16) -> (r: Self)
        ensures
            r == Self::within_bounds(x, y, width, height),
            r.fits(),
    {
        Rect { x, y, width: x.saturating_add(width) - x, height: y.saturating_add(height) - y }
    }

    /// The cell lies in the rectangle.
    pub open spec fn covers(self, col: u16, row: u16) -> bool {
        self.x <= col < self.x + self.width && self.y <= row < self.y + self.height
    }

    /// Whether the cell lies in the rectangle.
    pub fn contains(&self, col: u16, row: u16) -> (r: bool)
        ensures
            r == self.covers(col, row),
    {
        col >= self.x && row >= self.y && col - self.x < self.width && row - self.y < self.height
    }
}

// ── dialogs ─────────────────────────────────────────────────────────────

/// `v` brought between `low` and `high`.
pub open spec fn clamped(v: int, low: int, high: int) -> int {
    if v < low {
        low
    } else if v > high {
        high
    } else {
        v
    }
}

/// Bring `v` between `low` and `high`.
pub fn clamp_u16(v: u16, low: u16, high: u16) -> (r: u16)
    requires
        low <= high,
    ensures
        r == clamped(v as int, low as int, high as int),
{
    if v < low {
        low
    } else if v > high {
        high
    } else {
        v
    }
}

/// `a - b`, or nothing left.
pub open spec fn minus(a: int, b: int) -> int {
    if a >= b {
        a - b
    } else {
        0
    }
}

/// The smaller of two.
pub open spec fn smaller(a: int, b: int) -> int {
    if a <= b {
        a
    } else {
        b
    }
}

/// A rectangle of that size in the middle of the screen.
pub open spec fn centred(area: Rect, width: int, height: int) -> Rect {
    Rect::within_bounds(
        (minus(area.width as int, width) / 2) as u16,
        (minus(area.height as int, height) / 2) as u16,
        width as u16,
        height as u16,
    )
}

/// Put a rectangle of that size into the middle of the screen.
pub fn centre(area: Rect, width: u16, height: u16) -> (r: Rect)
    ensures
        r == centred(area, width as int, height as int),
{
    Rect::new(area.width.saturating_sub(width) / 2, area.height.saturating_sub(height) / 2, width, height)
}

/// The list of background shells.
pub fn bash_picker_area(area: Rect) -> (r: Rect)
    requires
        area.width * 9 <= u16::MAX,
        area.height * 8 <= u16::MAX,
    ensures
        r == centred(
            area,
            clamped(area.width * 9 / 10, 60, 130),
            clamped(area.height * 8 / 10, 10, 26),
        ),
{
    centre(area, clamp_u16(area.width * 9 / 10, 60, 130), clamp_u16(area.height * 8 / 10, 10, 26))
}

/// The size of a question: with a preview beside it, it is larger.
pub open spec fn question_size(area: Rect, has_preview: bool) -> (int, int) {
    if has_preview {
        (clamped(area.width * 8 / 10, 70, 110), clamped(area.height * 7 / 10, 14, 30))
    } else {
        (
            smaller(clamped(area.width * 7 / 10, 48, 90), minus(area.width as int, 4)),
            smaller(clamped(area.height * 6 / 10, 10, 24), minus(area.height as int, 4)),
        )
    }
}

/// Where a question stands.
pub fn question_area(area: Rect, has_preview: bool) -> (r: Rect)
    requires
        area.width * 8 <= u16::MAX,
        area.height * 7 <= u16::MAX,
    ensures
        r == centred(area, question_size(area, has_preview).0, question_size(area, has_preview).1),
{
    let (width, height) = if has_preview {
        (clamp_u16(area.width * 8 / 10, 70, 110), clamp_u16(area.height * 7 / 10, 14, 30))
    } else {
        let w: u16 = clamp_u16(area.width * 7 / 10, 48, 90);
        let h: u16 = clamp_u16(area.height * 6 / 10, 10, 24);
        let most_w: u16 = area.width.saturating_sub(4);
        let most_h: u16 = area.height.saturating_sub(4);
        (if w <= most_w {
            w
        } else {
            most_w
        }, if h <= most_h {
            h
        } else {
            most_h
        })
    };
    centre(area, width, height)
}

/// The size of the dialog that proposes another prompt.
pub open spec fn rewrite_size(area: Rect) -> (int, int) {
    (
        smaller(clamped(area.width * 7 / 10, 48, 96), minus(area.width as int, 4)),
        smaller(clamped(area.height * 6 / 10, 12, 26), minus(area.height as int, 4)),
    )
}

/// Where the dialog that proposes another prompt stands.
pub fn rewrite_area(area: Rect) -> (r: Rect)
    requires
        area.width * 7 <= u16::MAX,
        area.height * 6 <= u16::MAX,
    ensures
        r == centred(area, rewrite_size(area).0, rewrite_size(area).1),
{
    let w: u16 = clamp_u16(area.width * 7 / 10, 48, 96);
    let h: u16 = clamp_u16(area.height * 6 / 10, 12, 26);
    let most_w: u16 = area.width.saturating_sub(4);
    let most_h: u16 = area.height.saturating_sub(4);
    centre(area, if w <= most_w {
        w
    } else {
        most_w
    }, if h <= most_h {
        h
    } else {
        most_h
    })
}

/// Four fifths and seven tenths, rounded to the nearest cell, a half upwards.
pub open spec fn panel_size(area: Rect) -> (int, int) {
    ((area.width * 8 + 5) / 10, (area.height * 7 + 5) / 10)
}

/// Where the panel of agents stands: over four fifths of the width and seven
/// tenths of the height.
pub fn teammates_area(area: Rect) -> (r: Rect)
    requires
        area.fits(),
    ensures
        ({
            let (w, h) = panel_size(area);
            r == Rect::within_bounds(
                (area.x + (area.width - w) / 2) as u16,
                (area.y + (area.height - h) / 2) as u16,
                w as u16,
                h as u16,
            )
        }),
{
    let w: u16 = ((area.width as u32 * 8 + 5) / 10) as u16;
    let h: u16 = ((area.height as u32 * 7 + 5) / 10) as u16;
    Rect::new(area.x + (area.width - w) / 2, area.y + (area.height - h) / 2, w, h)
}

/// A dialog that is no larger than the screen stands on the screen, with equal
/// margins up to one cell.
pub proof fn law_centred_dialog_is_on_screen(area: Rect, width: int, height: int)
    requires
        0 <= width <= area.width,
        0 <= height <= area.height,
    ensures
        ({
            let r = centred(area, width, height);
            &&& r.width == width && r.height == height
            &&& r.x + r.width <= area.width && r.y + r.height <= area.height
            &&& 0 <= (area.width - r.width - r.x) - r.x <= 1
            &&& 0 <= (area.height - r.height - r.y) - r.y <= 1
        }),
{
}

// ── splitting ───────────────────────────────────────────────────────────

/// How much of an area a part asks for.
#[derive(Debug, Clone, Copy, PartialEq, Eq, Structural)]
pub enum Part {
    /// That many cells.
    Length(u16),
    /// That many cells or more.
    Min(u16),
    /// That many hundredths of the area.
    Percentage(u16),
}

/// Along which edge an area is split.
#[derive(Debug, Clone, Copy, PartialEq, Eq, Structural)]
pub enum Axis {
    /// One part below the other.
    Rows,
    /// One part beside the other.
    Columns,
}

/// The cells that a part asks for by number.
pub open spec fn asked(p: Part) -> nat {
    match p {
        Part::Length(n) => n as nat,
        Part::Min(n) => n as nat,
        Part::Percentage(_) => 0,
    }
}

/// The cells that the parts ask for by number, all together.
pub open spec fn asked_by(parts: Seq<Part>) -> nat
    decreases parts.len(),
{
    if parts.len() == 0 {
        0
    } else {
        asked_by(parts.drop_last()) + asked(parts.last())
    }
}

/// All parts but the one at `rest` have a length, that one takes what is left,
/// and `size` cells are enough for them.
pub open spec fn has_room(parts: Seq<Part>, rest: int, size: int) -> bool {
    &&& 0 <= rest < parts.len()
    &&& parts[rest] is Min
    &&& forall|i: int| 0 <= i < parts.len() && i != rest ==> (#[trigger] parts[i]) is Length
    &&& asked_by(parts) <= size
}

/// The cells of an area along the axis.
pub open spec fn extent(area: Rect, axis: Axis) -> int {
    match axis {
        Axis::Rows => area.height as int,
        Axis::Columns => area.width as int,
    }
}

/// The part of an area that begins `start` cells along the axis and takes `size`.
pub open spec fn stretch(area: Rect, axis: Axis, start: int, size: int) -> Rect {
    match axis {
        Axis::Rows => Rect { y: (area.y + start) as u16, height: size as u16, ..area },
        Axis::Columns => Rect { x: (area.x + start) as u16, width: size as u16, ..area },
    }
}

/// The rectangle spans the area across the axis, and does not leave it.
pub open spec fn spans_across(r: Rect, area: Rect, axis: Axis) -> bool {
    match axis {
        Axis::Rows => r.x == area.x && r.width == area.width && area.y <= r.y && r.y + r.height <= area.y
            + area.height,
        Axis::Columns => r.y == area.y && r.height == area.height && area.x <= r.x && r.x + r.width <= area.x
            + area.width,
    }
}

/// The part at `i`, where there is room for all: the parts follow each other in
/// order, each as long as it asks for, and the one at `rest` takes what is left.
pub open spec fn placed_part(area: Rect, parts: Seq<Part>, axis: Axis, rest: int, i: int) -> Rect {
    let left = extent(area, axis) - asked_by(parts);
    stretch(
        area,
        axis,
        asked_by(parts.take(i)) + (if i > rest {
            left
        } else {
            0
        }),
        asked(parts[i]) + (if i == rest {
            left
        } else {
            0
        }),
    )
}

/// The rectangles share the area out among the parts.
pub open spec fn is_split(r: Seq<Rect>, area: Rect, parts: Seq<Part>, axis: Axis) -> bool {
    &&& r.len() == parts.len()
    &&& forall|i: int| 0 <= i < r.len() ==> spans_across(#[trigger] r[i], area, axis)
    &&& forall|rest: int, i: int|
        #![trigger has_room(parts, rest, extent(area, axis)), r[i]]
        has_room(parts, rest, extent(area, axis)) && 0 <= i < r.len() ==> r[i] == placed_part(
            area,
            parts,
            axis,
            rest,
            i,
        )
}

/// `Layout::split` with no margin and no spacing: a rectangle for each part, in
/// order, that spans the area across the axis and does not leave it. Where one
/// part takes what is left and there is room for the lengths of the others, each
/// gets what it asks for. How the cells are shared out otherwise is left to the
/// layout, which promises no one solution.
#[verifier::external_body]
pub(crate) fn split_area(area: Rect, parts: &Vec<Part>, axis: Axis) -> (r: Vec<Rect>)
    requires
        area.fits(),
    ensures
        is_split(r@, area, parts@, axis),
{
    let direction = match axis {
        Axis::Rows => Direction::Vertical,
        Axis::Columns => Direction::Horizontal,
    };
    let constraints = parts.iter().map(|p| match p {
        Part::Length(n) => Constraint::Length(*n),
        Part::Min(n) => Constraint::Min(*n),
        Part::Percentage(n) => Constraint::Percentage(*n),
    });
    let whole = ratatui::layout::Rect { x: area.x, y: area.y, width: area.width, height: area.height };
    let rects = Layout::default().direction(direction).constraints(constraints).split(whole);
    rects.iter().map(|q| Rect { x: q.x, y: q.y, width: q.width, height: q.height }).collect()
}

/// Where a rectangle begins along the axis.
pub open spec fn begin_of(r: Rect, axis: Axis) -> int {
    match axis {
        Axis::Rows => r.y as int,
        Axis::Columns => r.x as int,
    }
}

proof fn lemma_asked_by_take(parts: Seq<Part>, i: int)
    requires
        0 <= i <= parts.len(),
    ensures
        asked_by(parts.take(i)) <= asked_by(parts),
        i < parts.len() ==> asked_by(parts.take(i + 1)) == asked_by(parts.take(i)) + asked(parts[i]),
    decreases parts.len() - i,
{
    if i < parts.len() {
        assert(parts.take(i + 1).drop_last() =~= parts.take(i));
        lemma_asked_by_take(parts, i + 1);
    } else {
        assert(parts.take(i) =~= parts);
    }
}

/// Where there is room, the parts follow each other without a gap and without
/// covering each other, from one end of the area to the other.
pub proof fn law_parts_fill_the_area(area: Rect, parts: Seq<Part>, axis: Axis, rest: int, i: int)
    requires
        area.fits(),
        has_room(parts, rest, extent(area, axis)),
        0 <= i < parts.len(),
    ensures
        ({
            let part = placed_part(area, parts, axis, rest, i);
            let end = begin_of(part, axis) + extent(part, axis);
            &&& i == 0 ==> begin_of(part, axis) == begin_of(area, axis)
            &&& i + 1 < parts.len() ==> end == begin_of(
                placed_part(area, parts, axis, rest, i + 1),
                axis,
            )
            &&& i + 1 == parts.len() ==> end == begin_of(area, axis) + extent(area, axis)
        }),
{
    lemma_asked_by_take(parts, i);
    lemma_asked_by_take(parts, i + 1);
    assert(parts.take(parts.len() as int) =~= parts);
    assert(parts.take(0) =~= Seq::<Part>::empty());
}

/// A dialog without a preview leaves a margin wherever the screen is wide and high
/// enough for one, and never outgrows what is readable.
pub proof fn law_dialogs_leave_a_margin(area: Rect)
    ensures
        ({
            let (w, h) = question_size(area, false);
            let (rw, rh) = rewrite_size(area);
            &&& area.width >= 4 ==> w <= area.width - 4 && rw <= area.width - 4
            &&& area.height >= 4 ==> h <= area.height - 4 && rh <= area.height - 4
            &&& w <= 90 && h <= 24 && rw <= 96 && rh <= 26
            &&& area.width >= 52 ==> w >= 48 && rw >= 48
            &&& area.height >= 16 ==> h >= 10 && rh >= 12
        }),
        ({
            let (w, h) = question_size(area, true);
            70 <= w <= 110 && 14 <= h <= 30
        }),
        ({
            let (w, h) = panel_size(area);
            &&& w <= area.width && h <= area.height
            &&& 10 * w <= 8 * area.width + 5 && 10 * w + 5 > 8 * area.width
            &&& 10 * h <= 7 * area.height + 5 && 10 * h + 5 > 7 * area.height
        }),
{
}

} // verus!
