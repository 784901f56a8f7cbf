//! The dialog that proposes another wording for a prompt.
//!
//! The proposal is only shown. Nothing is sent before the user has accepted,
//! rejected or edited it.
use vstd::prelude::*;

use crate::event_loop::PromptRewriteProposal;
use crate::layout::{centred, is_split, rewrite_area, rewrite_size, split_area, Axis, Part, Rect};
use crate::pinned::Row;
use crate::styled::{group_rows, line1, line2, row1, row2, rows, span, Line, Span, Style, Tone};

verus! {

broadcast use group_rows;

/// The dialog, ready to be drawn.
#[derive(Debug)]
pub struct RewriteDialog {
    pub area: Rect,
    pub rewrite: Vec<Line>,
    pub rationale: Line,
    pub original: Vec<Line>,
    pub footer: Line,
}

/// A label above a text.
pub open spec fn labelled(label: Seq<char>, text: Seq<char>, style: Style) -> Seq<Row> {
    seq![row1(label, Style::in_tone(Tone::TextMuted)), row1(text, style)]
}

fn labelled_lines(label: &str, text: &String, style: Style) -> (r: Vec<Line>)
    ensures
        rows(r@) == labelled(label@, text@, style),
{
    let mut out: Vec<Line> = Vec::new();
    out.push(line1(label.to_owned(), Style::fg(Tone::TextMuted)));
    out.push(line1(text.clone(), style));
    assert(rows(out@) =~= labelled(label@, text@, style));
    out
}

/// The keys of the dialog.
pub open spec fn rewrite_keys() -> Row {
    let key = Style::in_tone(Tone::Accent).made_bold();
    let label = Style::in_tone(Tone::TextMuted);
    seq![
        ("[A]"@, key),
        ("ccept  "@, label),
        ("[R]"@, key),
        ("eject (send original)  "@, label),
        ("[E]"@, key),
        ("dit"@, label),
    ]
}

fn rewrite_footer() -> (r: Line)
    ensures
        r@ == rewrite_keys(),
{
    let key = Style::fg(Tone::Accent).bold();
    let label = Style::fg(Tone::TextMuted);
    let mut spans: Vec<Span> = Vec::new();
    spans.push(span("[A]".to_owned(), key));
    spans.push(span("ccept  ".to_owned(), label));
    spans.push(span("[R]".to_owned(), key));
    spans.push(span("eject (send original)  ".to_owned(), label));
    spans.push(span("[E]".to_owned(), key));
    spans.push(span("dit".to_owned(), label));
    let line = Line { spans };
    assert(line@ =~= rewrite_keys());
    line
}

/// The dialog on a screen of that size.
pub fn prompt_rewrite(proposal: &PromptRewriteProposal, screen: Rect) -> (r: RewriteDialog)
    requires
        screen.width * 7 <= u16::MAX,
        screen.height * 6 <= u16::MAX,
    ensures
        r.area == centred(screen, rewrite_size(screen).0, rewrite_size(screen).1),
        rows(r.rewrite@) == labelled(
            "Proposed rewrite:"@,
            proposal.rewrite@,
            Style::in_tone(Tone::TextPrimary).made_bold(),
        ),
        r.rationale@ == row2(
            ("Why: "@, Style::in_tone(Tone::TextMuted)),
            (proposal.rationale@, Style::in_tone(Tone::TextPrimary)),
        ),
        rows(r.original@) == labelled(
            "Your original:"@,
            proposal.original@,
            Style::in_tone(Tone::TextMuted),
        ),
        r.footer@ == rewrite_keys(),
{
    RewriteDialog {
        area: rewrite_area(screen),
        rewrite: labelled_lines(
            "Proposed rewrite:",
            &proposal.rewrite,
            Style::fg(Tone::TextPrimary).bold(),
        ),
        rationale: line2(
            span("Why: ".to_owned(), Style::fg(Tone::TextMuted)),
            span(proposal.rationale.clone(), Style::fg(Tone::TextPrimary)),
        ),
        original: labelled_lines("Your original:", &proposal.original, Style::fg(Tone::TextMuted)),
        footer: rewrite_footer(),
    }
}

/// What the rows of the dialog ask for: the proposal, why, the original and the
/// keys.
pub fn rewrite_parts() -> (r: Vec<Part>)
    ensures
        r@ == seq![Part::Min(3), Part::Length(2), Part::Length(3), Part::Length(1)],
{
    vec![Part::Min(3), Part::Length(2), Part::Length(3), Part::Length(1)]
}

/// Share the inside of the dialog out among its rows.
pub fn rewrite_rows(inner: Rect) -> (r: Vec<Rect>)
    requires
        inner.fits(),
    ensures
        is_split(
            r@,
            inner,
            seq![Part::Min(3), Part::Length(2), Part::Length(3), Part::Length(1)],
            Axis::Rows,
        ),
{
    split_area(inner, &rewrite_parts(), Axis::Rows)
}

} // verus!
