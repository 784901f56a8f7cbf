//! Styled text: what a screen row shows, before any colour is chosen.
//!
//! A row is a list of spans. A span has a text and a style, and a style names
//! its colours by the role that they play in the theme.
use vstd::prelude::*;

verus! {

/// Colours that mark a member of a team.
#[derive(Debug, Clone, Copy, PartialEq, Eq, Structural)]
pub enum TeamColor {
    Red,
    Blue,
    Green,
    Yellow,
    Purple,
    Orange,
    Pink,
    Cyan,
    Plain,
}

/// The role of a colour in the theme.
#[derive(Debug, Clone, Copy, PartialEq, Eq, Structural)]
pub enum Tone {
    TextPrimary,
    TextSecondary,
    TextMuted,
    Accent,
    AccentSecondary,
    Success,
    Warning,
    Error,
    Border,
    /// The frame of the input, and that frame while an answer comes in.
    PromptBorder,
    PromptBorderShimmer,
    Background,
    Surface,
    SurfaceRaised,
    Reasoning,
    DiffAdded,
    DiffRemoved,
    Team(TeamColor),
    /// A colour that was computed, such as one step of a fade.
    Rgb(u8, u8, u8),
}

/// How a span is drawn.
#[derive(Debug, Clone, Copy, PartialEq, Eq, Structural)]
pub struct Style {
    pub fg: Option<Tone>,
    pub bg: Option<Tone>,
    pub bold: bool,
    pub italic: bool,
    pub dim: bool,
    pub reversed: bool,
    pub crossed_out: bool,
    pub underlined: bool,
}

impl Style {
    /// The style that changes nothing.
    pub open spec fn plain_style() -> Style {
        Style {
            fg: None,
            bg: None,
            bold: false,
            italic: false,
            dim: false,
            reversed: false,
            crossed_out: false,
            underlined: false,
        }
    }

    /// The style that only sets the text's colour.
    pub open spec fn in_tone(tone: Tone) -> Style {
        Style { fg: Some(tone), ..Self::plain_style() }
    }

    pub fn plain() -> (r: Self)
        ensures
            r == Self::plain_style(),
    {
        Style {
            fg: None,
            bg: None,
            bold: false,
            italic: false,
            dim: false,
            reversed: false,
            crossed_out: false,
            underlined: false,
        }
    }

    pub fn fg(tone: Tone) -> (r: Self)
        ensures
            r == Self::in_tone(tone),
    {
        let plain = Self::plain();
        Style { fg: Some(tone), ..plain }
    }

    pub open spec fn made_bold(self) -> Style {
        Style { bold: true, ..self }
    }

    pub fn bold(self) -> (r: Self)
        ensures
            r == self.made_bold(),
    {
        Style { bold: true, ..self }
    }

    pub open spec fn made_italic(self) -> Style {
        Style { italic: true, ..self }
    }

    pub fn italic(self) -> (r: Self)
        ensures
            r == self.made_italic(),
    {
        Style { italic: true, ..self }
    }

    pub open spec fn made_dim(self) -> Style {
        Style { dim: true, ..self }
    }

    pub fn dim(self) -> (r: Self)
        ensures
            r == self.made_dim(),
    {
        Style { dim: true, ..self }
    }

    pub open spec fn on_tone(self, tone: Tone) -> Style {
        Style { bg: Some(tone), ..self }
    }

    pub fn on(self, tone: Tone) -> (r: Self)
        ensures
            r == self.on_tone(tone),
    {
        Style { bg: Some(tone), ..self }
    }

    pub open spec fn made_underlined(self) -> Style {
        Style { underlined: true, ..self }
    }

    pub fn underlined(self) -> (r: Self)
        ensures
            r == self.made_underlined(),
    {
        Style { underlined: true, ..self }
    }

    pub open spec fn made_crossed_out(self) -> Style {
        Style { crossed_out: true, ..self }
    }

    pub fn crossed_out(self) -> (r: Self)
        ensures
            r == self.made_crossed_out(),
    {
        Style { crossed_out: true, ..self }
    }
}

/// A text and how it is drawn.
#[derive(Debug, PartialEq, Eq)]
pub struct Span {
    pub text: String,
    pub style: Style,
}

impl View for Span {
    type V = (Seq<char>, Style);

    open spec fn view(&self) -> (Seq<char>, Style) {
        (self.text@, self.style)
    }
}

impl Clone for Span {
    fn clone(&self) -> (r: Self)
        ensures
            r == *self,
    {
        Span { text: self.text.clone(), style: self.style }
    }
}

/// One row of the screen.
#[derive(Debug, PartialEq, Eq)]
pub struct Line {
    pub spans: Vec<Span>,
}

/// What the spans of a row show.
pub open spec fn spans_of(v: Seq<Span>) -> Seq<(Seq<char>, Style)> {
    v.map_values(|s: Span| s@)
}

impl View for Line {
    type V = Seq<(Seq<char>, Style)>;

    open spec fn view(&self) -> Seq<(Seq<char>, Style)> {
        spans_of(self.spans@)
    }
}

/// What a list of rows shows.
pub open spec fn rows(v: Seq<Line>) -> Seq<Seq<(Seq<char>, Style)>> {
    v.map_values(|l: Line| l@)
}

pub broadcast proof fn lemma_spans_push(v: Seq<Span>, s: Span)
    ensures
        #[trigger] spans_of(v.push(s)) == spans_of(v).push(s@),
{
    assert(spans_of(v.push(s)) =~= spans_of(v).push(s@));
}

pub broadcast proof fn lemma_spans_empty()
    ensures
        #[trigger] spans_of(Seq::<Span>::empty()) == Seq::<(Seq<char>, Style)>::empty(),
{
    assert(spans_of(Seq::<Span>::empty()) =~= Seq::<(Seq<char>, Style)>::empty());
}

pub broadcast proof fn lemma_spans_add(a: Seq<Span>, b: Seq<Span>)
    ensures
        #[trigger] spans_of(a + b) == spans_of(a) + spans_of(b),
{
    assert(spans_of(a + b) =~= spans_of(a) + spans_of(b));
}

pub broadcast proof fn lemma_rows_push(v: Seq<Line>, l: Line)
    ensures
        #[trigger] rows(v.push(l)) == rows(v).push(l@),
{
    assert(rows(v.push(l)) =~= rows(v).push(l@));
}

pub broadcast proof fn lemma_rows_empty()
    ensures
        #[trigger] rows(Seq::<Line>::empty()) == Seq::<Seq<(Seq<char>, Style)>>::empty(),
{
    assert(rows(Seq::<Line>::empty()) =~= Seq::<Seq<(Seq<char>, Style)>>::empty());
}

pub broadcast proof fn lemma_rows_add(a: Seq<Line>, b: Seq<Line>)
    ensures
        #[trigger] rows(a + b) == rows(a) + rows(b),
{
    assert(rows(a + b) =~= rows(a) + rows(b));
}

pub broadcast group group_rows {
    lemma_spans_push,
    lemma_spans_empty,
    lemma_spans_add,
    lemma_rows_push,
    lemma_rows_empty,
    lemma_rows_add,
}

impl Clone for Line {
    fn clone(&self) -> (r: Self)
        ensures
            r@ == self@,
    {
        broadcast use group_rows;

        let mut spans: Vec<Span> = Vec::new();
        let mut i: usize = 0;
        assert(spans@ =~= self.spans@.take(0));
        while i < self.spans.len()
            invariant
                i <= self.spans@.len(),
                spans@ == self.spans@.take(i as int),
            decreases self.spans@.len() - i,
        {
            spans.push(self.spans[i].clone());
            assert(self.spans@.take(i + 1) =~= self.spans@.take(i as int).push(self.spans@[i as int]));
            i += 1;
        }
        assert(self.spans@.take(i as int) =~= self.spans@);
        Line { spans }
    }
}

pub fn span(text: String, style: Style) -> (r: Span)
    ensures
        r@ == (text@, style),
{
    Span { text, style }
}

/// A row without text.
pub open spec fn blank_row() -> Seq<(Seq<char>, Style)> {
    seq![(""@, Style::plain_style())]
}

/// A row of one span.
pub open spec fn row1(text: Seq<char>, style: Style) -> Seq<(Seq<char>, Style)> {
    seq![(text, style)]
}

/// A row of two spans.
pub open spec fn row2(a: (Seq<char>, Style), b: (Seq<char>, Style)) -> Seq<(Seq<char>, Style)> {
    seq![a, b]
}

/// A row of three spans.
pub open spec fn row3(a: (Seq<char>, Style), b: (Seq<char>, Style), c: (Seq<char>, Style)) -> Seq<
    (Seq<char>, Style),
> {
    seq![a, b, c]
}

/// A row of four spans.
pub open spec fn row4(
    a: (Seq<char>, Style),
    b: (Seq<char>, Style),
    c: (Seq<char>, Style),
    d: (Seq<char>, Style),
) -> Seq<(Seq<char>, Style)> {
    seq![a, b, c, d]
}

pub fn blank_line() -> (r: Line)
    ensures
        r@ == blank_row(),
{
    line1("".to_owned(), Style::plain())
}

pub fn line1(text: String, style: Style) -> (r: Line)
    ensures
        r@ == row1(text@, style),
{
    broadcast use group_rows;

    let mut spans: Vec<Span> = Vec::new();
    spans.push(span(text, style));
    let r = Line { spans };
    assert(r@ =~= row1(text@, style));
    r
}

pub fn line2(a: Span, b: Span) -> (r: Line)
    ensures
        r@ == row2(a@, b@),
{
    broadcast use group_rows;

    let mut spans: Vec<Span> = Vec::new();
    spans.push(a);
    spans.push(b);
    let r = Line { spans };
    assert(r@ =~= row2(a@, b@));
    r
}

pub fn line3(a: Span, b: Span, c: Span) -> (r: Line)
    ensures
        r@ == row3(a@, b@, c@),
{
    broadcast use group_rows;

    let mut spans: Vec<Span> = Vec::new();
    spans.push(a);
    spans.push(b);
    spans.push(c);
    let r = Line { spans };
    assert(r@ =~= row3(a@, b@, c@));
    r
}

pub fn line4(a: Span, b: Span, c: Span, d: Span) -> (r: Line)
    ensures
        r@ == row4(a@, b@, c@, d@),
{
    broadcast use group_rows;

    let mut spans: Vec<Span> = Vec::new();
    spans.push(a);
    spans.push(b);
    spans.push(c);
    spans.push(d);
    let r = Line { spans };
    assert(r@ =~= row4(a@, b@, c@, d@));
    r
}

/// Append the rows `more`.
pub fn push_lines(lines: &mut Vec<Line>, more: Vec<Line>)
    ensures
        rows(final(lines)@) == rows(old(lines)@) + rows(more@),
{
    broadcast use group_rows;

    let mut rest = more;
    lines.append(&mut rest);
}

/// The team colour of that name.
pub open spec fn team_color(name: Option<Seq<char>>) -> TeamColor {
    match name {
        None => TeamColor::Plain,
        Some(n) => if n == "red"@ {
            TeamColor::Red
        } else if n == "blue"@ {
            TeamColor::Blue
        } else if n == "green"@ {
            TeamColor::Green
        } else if n == "yellow"@ {
            TeamColor::Yellow
        } else if n == "purple"@ {
            TeamColor::Purple
        } else if n == "orange"@ {
            TeamColor::Orange
        } else if n == "pink"@ {
            TeamColor::Pink
        } else if n == "cyan"@ {
            TeamColor::Cyan
        } else {
            TeamColor::Plain
        },
    }
}

/// The colour of a team member; an unknown or missing name gives the plain one.
pub fn teammate_color(name: &Option<String>) -> (r: TeamColor)
    ensures
        r == team_color(crate::slicing::opt_text(*name)),
{
    match name {
        None => TeamColor::Plain,
        Some(n) => {
            let n = n.as_str();
            if crate::text::same_text(n, "red") {
                TeamColor::Red
            } else if crate::text::same_text(n, "blue") {
                TeamColor::Blue
            } else if crate::text::same_text(n, "green") {
                TeamColor::Green
            } else if crate::text::same_text(n, "yellow") {
                TeamColor::Yellow
            } else if crate::text::same_text(n, "purple") {
                TeamColor::Purple
            } else if crate::text::same_text(n, "orange") {
                TeamColor::Orange
            } else if crate::text::same_text(n, "pink") {
                TeamColor::Pink
            } else if crate::text::same_text(n, "cyan") {
                TeamColor::Cyan
            } else {
                TeamColor::Plain
            }
        },
    }
}

} // verus!
