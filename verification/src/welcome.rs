//! What an empty session shows.
use vstd::prelude::*;

use crate::fitting::{shortened, truncate_str};
use crate::pinned::Row;
use crate::showing::{lemma_has_in_sum, lemma_has_itself, lemma_row_has, lemma_row_text_adds, row_text, shows};
use crate::slicing::{after_prefix, group_texts, has_text, join, joined, opt_text, pieces, split_char, strip_prefix, texts};
use crate::styled::{blank_line, blank_row, group_rows, line1, line3, push_lines, row1, row3, rows, span, spans_of, Line, Span, Style, Tone};
use crate::text::{cat2, cat3, cat4, char_count, chars_of, count_text, decimal, same_text};

verus! {

broadcast use {group_texts, group_rows};

// ── labels ──────────────────────────────────────────────────────────────

/// `2M context`, `1.5M context`, `200k context`, `900 context`.
pub open spec fn window_text(tokens: nat) -> Seq<char> {
    if tokens >= 1_000_000 {
        if tokens % 1_000_000 == 0 {
            decimal(tokens / 1_000_000) + "M context"@
        } else {
            decimal(tokens / 1_000_000) + "."@ + decimal(tokens % 1_000_000 / 100_000) + "M context"@
        }
    } else if tokens >= 1_000 {
        decimal(tokens / 1_000) + "k context"@
    } else {
        decimal(tokens) + " context"@
    }
}

/// The size of the context window.
pub fn context_window_label(tokens: usize) -> (r: String)
    ensures
        r@ == window_text(tokens as nat),
{
    if tokens >= 1_000_000 {
        let whole: usize = tokens / 1_000_000;
        if tokens % 1_000_000 == 0 {
            cat2(count_text(whole).as_str(), "M context")
        } else {
            let tenth: usize = tokens % 1_000_000 / 100_000;
            cat4(count_text(whole).as_str(), ".", count_text(tenth).as_str(), "M context")
        }
    } else if tokens >= 1_000 {
        cat2(count_text(tokens / 1_000).as_str(), "k context")
    } else {
        cat2(count_text(tokens).as_str(), " context")
    }
}

/// Nothing but decimal digits.
pub open spec fn only_digits(s: Seq<char>) -> bool {
    forall|i: int| 0 <= i < s.len() ==> '0' <= #[trigger] s[i] && s[i] <= '9'
}

fn has_only_digits(s: &str) -> (r: bool)
    ensures
        r == only_digits(s@),
{
    let cs = chars_of(s);
    let mut i: usize = 0;
    while i < cs.len()
        invariant
            i <= cs@.len(),
            cs@ == s@,
            forall|j: int| 0 <= j < i ==> '0' <= #[trigger] s@[j] && s@[j] <= '9',
        decreases cs@.len() - i,
    {
        if !('0' <= cs[i] && cs[i] <= '9') {
            assert(!('0' <= s@[i as int] && s@[i as int] <= '9'));
            return false;
        }
        i += 1;
    }
    true
}

/// The parts in front, from `from` on, that are numbers.
pub open spec fn leading_numbers(parts: Seq<Seq<char>>, from: int) -> int
    decreases parts.len() - from,
{
    if from < 0 || from >= parts.len() || !only_digits(parts[from]) {
        from
    } else {
        leading_numbers(parts, from + 1)
    }
}

/// The version behind a family's name: `4-6-20250101` gives `4.6.20250101`,
/// `4-6-fast` gives `4.6`.
pub open spec fn version_of(rest: Seq<char>) -> Seq<char> {
    let parts = pieces(rest, '-', 0);
    joined(parts.take(leading_numbers(parts, 0)), "."@)
}

fn version_text(rest: &str) -> (r: String)
    ensures
        r@ == version_of(rest@),
{
    let parts = split_char(rest, '-');
    let ghost all = texts(parts@);
    let mut out: Vec<String> = Vec::new();
    let mut i: usize = 0;
    assert(texts(out@) =~= all.take(0));
    assert(all.len() == parts@.len());
    while i < parts.len() && has_only_digits(parts[i].as_str())
        invariant
            i <= parts@.len(),
            all == texts(parts@),
            all.len() == parts@.len(),
            leading_numbers(all, 0) == leading_numbers(all, i as int),
            texts(out@) == all.take(i as int),
        decreases parts@.len() - i,
    {
        assert(all[i as int] == parts@[i as int]@);
        out.push(parts[i].clone());
        assert(all.take(i + 1) =~= all.take(i as int).push(all[i as int]));
        i += 1;
    }
    assert(i < parts@.len() ==> all[i as int] == parts@[i as int]@);
    join(&out, ".")
}

/// The family with its version, where the model is of that family.
pub open spec fn family_label(short: Seq<char>, prefix: Seq<char>, label: Seq<char>) -> Option<Seq<char>> {
    match after_prefix(short, prefix) {
        Some(rest) => if version_of(rest).len() > 0 {
            Some(label + " "@ + version_of(rest))
        } else {
            None
        },
        None => None,
    }
}

fn family_text(short: &str, prefix: &str, label: &str) -> (r: Option<String>)
    ensures
        opt_text(r) == family_label(short@, prefix@, label@),
{
    match strip_prefix(short, prefix) {
        Some(rest) => {
            let version = version_text(rest.as_str());
            if char_count(version.as_str()) > 0 {
                Some(cat3(label, " ", version.as_str()))
            } else {
                None
            }
        },
        None => None,
    }
}

/// A model of a known family, with what its maker puts in front of the family or
/// without, reads `Opus 4.6`; other models keep their id.
pub open spec fn model_label(model: Seq<char>, maker: Seq<char>) -> Seq<char> {
    let short = match after_prefix(model, maker) {
        Some(rest) => rest,
        None => model,
    };
    match family_label(short, "opus-"@, "Opus"@) {
        Some(l) => l,
        None => match family_label(short, "sonnet-"@, "Sonnet"@) {
            Some(l) => l,
            None => match family_label(short, "haiku-"@, "Haiku"@) {
                Some(l) => l,
                None => shortened(model, 36),
            },
        },
    }
}

/// The model as a user reads it, with `maker` what its maker puts in front of
/// the family.
pub fn pretty_model_label(model: &str, maker: &str) -> (r: String)
    ensures
        r@ == model_label(model@, maker@),
{
    let short = match strip_prefix(model, maker) {
        Some(rest) => rest,
        None => model.to_owned(),
    };
    if let Some(l) = family_text(short.as_str(), "opus-", "Opus") {
        return l;
    }
    if let Some(l) = family_text(short.as_str(), "sonnet-", "Sonnet") {
        return l;
    }
    if let Some(l) = family_text(short.as_str(), "haiku-", "Haiku") {
        return l;
    }
    truncate_str(model, 36)
}

/// The provider as a user reads it.
pub open spec fn provider_name(provider: Seq<char>) -> Seq<char> {
    if provider == "anthropic-oauth"@ {
        "OAuth"@
    } else if provider == "anthropic"@ {
        "Anthropic"@
    } else if provider == "openai"@ {
        "OpenAI"@
    } else if provider == "gemini"@ {
        "Gemini"@
    } else if provider == "openwebui"@ {
        "OpenWebUI"@
    } else {
        provider
    }
}

/// The provider as a user reads it.
pub fn provider_label(provider: &str) -> (r: String)
    ensures
        r@ == provider_name(provider@),
{
    if same_text(provider, "anthropic-oauth") {
        "OAuth".to_owned()
    } else if same_text(provider, "anthropic") {
        "Anthropic".to_owned()
    } else if same_text(provider, "openai") {
        "OpenAI".to_owned()
    } else if same_text(provider, "gemini") {
        "Gemini".to_owned()
    } else if same_text(provider, "openwebui") {
        "OpenWebUI".to_owned()
    } else {
        provider.to_owned()
    }
}

/// The effort: `high effort` for the badge `effort high`.
pub open spec fn effort_text(badge: Option<Seq<char>>) -> Seq<char> {
    match badge {
        Some(b) => match after_prefix(b, "effort "@) {
            Some(level) => level + " effort"@,
            None => b,
        },
        None => "default effort"@,
    }
}

/// The effort as the header says it.
pub fn effort_header_label(badge: &Option<String>) -> (r: String)
    ensures
        r@ == effort_text(opt_text(*badge)),
{
    match badge {
        Some(b) => match strip_prefix(b.as_str(), "effort ") {
            Some(level) => cat2(level.as_str(), " effort"),
            None => b.clone(),
        },
        None => "default effort".to_owned(),
    }
}

// ── the logo ────────────────────────────────────────────────────────────

pub open spec fn flag_red() -> Style {
    Style::in_tone(Tone::Rgb(217, 0, 18))
}

pub open spec fn flag_blue() -> Style {
    Style::in_tone(Tone::Rgb(0, 51, 160))
}

pub open spec fn flag_orange() -> Style {
    Style::in_tone(Tone::Rgb(242, 168, 0))
}

/// One row of the logo.
pub open spec fn logo_row(row: nat) -> Row {
    let plain = Style::plain_style();
    let hat = flag_red().on_tone(Tone::Background);
    let weave = flag_orange().on_tone(Tone::Background).made_bold();
    let middle = flag_blue().on_tone(Tone::Background).made_bold();
    if row == 0 {
        seq![
            ("  "@, plain),
            ("▟"@, hat),
            ("╳"@, weave),
            ("◇"@, middle),
            ("╳"@, weave),
            ("▙"@, hat),
            ("  "@, plain),
        ]
    } else if row == 1 {
        seq![(" ▐"@, flag_red()), ("▛███▜"@, flag_red()), ("▌"@, flag_red()), (" "@, plain)]
    } else if row == 2 {
        seq![("▝▜█████▛▘"@, flag_blue())]
    } else {
        seq![
            ("  "@, plain),
            ("▘▘"@, flag_orange()),
            (" "@, plain),
            ("▝▝"@, flag_orange()),
            ("  "@, plain),
        ]
    }
}

/// One row of the logo.
pub fn claude_logo_row(row: usize) -> (r: Vec<Span>)
    ensures
        spans_of(r@) == logo_row(row as nat),
{
    let plain = Style::plain();
    let red = Style::fg(Tone::Rgb(217, 0, 18));
    let blue = Style::fg(Tone::Rgb(0, 51, 160));
    let orange = Style::fg(Tone::Rgb(242, 168, 0));
    let mut out: Vec<Span> = Vec::new();
    if row == 0 {
        let hat = red.on(Tone::Background);
        let weave = orange.on(Tone::Background).bold();
        let middle = blue.on(Tone::Background).bold();
        out.push(span("  ".to_owned(), plain));
        out.push(span("▟".to_owned(), hat));
        out.push(span("╳".to_owned(), weave));
        out.push(span("◇".to_owned(), middle));
        out.push(span("╳".to_owned(), weave));
        out.push(span("▙".to_owned(), hat));
        out.push(span("  ".to_owned(), plain));
    } else if row == 1 {
        out.push(span(" ▐".to_owned(), red));
        out.push(span("▛███▜".to_owned(), red));
        out.push(span("▌".to_owned(), red));
        out.push(span(" ".to_owned(), plain));
    } else if row == 2 {
        out.push(span("▝▜█████▛▘".to_owned(), blue));
    } else {
        out.push(span("  ".to_owned(), plain));
        out.push(span("▘▘".to_owned(), orange));
        out.push(span(" ".to_owned(), plain));
        out.push(span("▝▝".to_owned(), orange));
        out.push(span("  ".to_owned(), plain));
    }
    assert(spans_of(out@) =~= logo_row(row as nat));
    out
}

/// A row of the logo with text beside it.
pub open spec fn beside_logo(row: nat, text: Row) -> Row {
    logo_row(row) + seq![("  "@, Style::plain_style())] + text
}

/// A row of the logo with text beside it.
pub fn with_claude_logo(row: usize, text: Vec<Span>) -> (r: Line)
    ensures
        r@ == beside_logo(row as nat, spans_of(text@)),
{
    let mut spans = claude_logo_row(row);
    let ghost logo = spans_of(spans@);
    spans.push(span("  ".to_owned(), Style::plain()));
    assert(spans_of(spans@) =~= logo + seq![("  "@, Style::plain_style())]);
    let mut more = text;
    let ghost t = spans_of(more@);
    spans.append(&mut more);
    Line { spans }
}

// ── the lines ───────────────────────────────────────────────────────────

/// The session, as far as its start shows it.
#[derive(Debug)]
pub struct SessionHeader {
    pub version: String,
    pub model: String,
    /// What the maker of the models puts in front of their family.
    pub maker: String,
    pub context_window: usize,
    pub effort_badge: Option<String>,
    pub provider: String,
    pub cwd: String,
    /// How many tool servers could not be started.
    pub setup_issues: usize,
}

/// Name and version.
pub open spec fn title_spans(h: SessionHeader) -> Row {
    seq![
        ("JFC"@, Style::in_tone(Tone::TextPrimary).made_bold()),
        (" v"@ + h.version@, Style::in_tone(Tone::TextMuted)),
    ]
}

fn title(h: &SessionHeader) -> (r: Vec<Span>)
    ensures
        spans_of(r@) == title_spans(*h),
{
    let mut out: Vec<Span> = Vec::new();
    out.push(span("JFC".to_owned(), Style::fg(Tone::TextPrimary).bold()));
    out.push(span(cat2(" v", h.version.as_str()), Style::fg(Tone::TextMuted)));
    assert(spans_of(out@) =~= title_spans(*h));
    out
}

/// Model, window, effort and provider.
pub open spec fn model_text(h: SessionHeader) -> Seq<char> {
    model_label(h.model@, h.maker@) + " ("@ + window_text(h.context_window as nat) + (") with "@ + effort_text(
        opt_text(h.effort_badge),
    ) + " · "@ + provider_name(h.provider@))
}

fn model_spans(h: &SessionHeader) -> (r: Vec<Span>)
    ensures
        spans_of(r@) == row1(model_text(*h), Style::in_tone(Tone::TextSecondary)),
{
    let text = cat4(
        pretty_model_label(h.model.as_str(), h.maker.as_str()).as_str(),
        " (",
        context_window_label(h.context_window).as_str(),
        cat4(
            ") with ",
            effort_header_label(&h.effort_badge).as_str(),
            " · ",
            provider_label(h.provider.as_str()).as_str(),
        ).as_str(),
    );
    let mut out: Vec<Span> = Vec::new();
    out.push(span(text, Style::fg(Tone::TextSecondary)));
    assert(spans_of(out@) =~= row1(model_text(*h), Style::in_tone(Tone::TextSecondary)));
    out
}

fn cwd_spans(h: &SessionHeader) -> (r: Vec<Span>)
    ensures
        spans_of(r@) == row1(shortened(h.cwd@, 72), Style::in_tone(Tone::TextSecondary)),
{
    let mut out: Vec<Span> = Vec::new();
    out.push(span(truncate_str(h.cwd.as_str(), 72), Style::fg(Tone::TextSecondary)));
    assert(spans_of(out@) =~= row1(shortened(h.cwd@, 72), Style::in_tone(Tone::TextSecondary)));
    out
}

/// The head: beside the logo where there is room.
pub open spec fn header_rows(h: SessionHeader, width: nat) -> Seq<Row> {
    let model = row1(model_text(h), Style::in_tone(Tone::TextSecondary));
    let cwd = row1(shortened(h.cwd@, 72), Style::in_tone(Tone::TextSecondary));
    if width >= 70 {
        seq![
            beside_logo(0, title_spans(h)),
            beside_logo(1, model),
            beside_logo(2, cwd),
            beside_logo(3, Seq::empty()),
            blank_row(),
        ]
    } else {
        seq![title_spans(h), model, cwd, blank_row()]
    }
}

fn header_lines(h: &SessionHeader, width: u16) -> (r: Vec<Line>)
    ensures
        rows(r@) == header_rows(*h, width as nat),
{
    let mut out: Vec<Line> = Vec::new();
    if width >= 70 {
        out.push(with_claude_logo(0, title(h)));
        out.push(with_claude_logo(1, model_spans(h)));
        out.push(with_claude_logo(2, cwd_spans(h)));
        let none: Vec<Span> = Vec::new();
        assert(spans_of(none@) =~= Seq::<(Seq<char>, Style)>::empty());
        out.push(with_claude_logo(3, none));
    } else {
        out.push(Line { spans: title(h) });
        out.push(Line { spans: model_spans(h) });
        out.push(Line { spans: cwd_spans(h) });
    }
    out.push(blank_line());
    assert(rows(out@) =~= header_rows(*h, width as nat));
    out
}

/// What could not be set up.
pub open spec fn issue_rows(n: nat) -> Seq<Row> {
    if n == 0 {
        Seq::empty()
    } else {
        let word = if n == 1 {
            "issue"@
        } else {
            "issues"@
        };
        seq![
            row3(
                (decimal(n) + " setup "@ + word + ": "@, Style::in_tone(Tone::Warning).made_bold()),
                ("MCP"@, Style::in_tone(Tone::Warning)),
                (" · /doctor"@, Style::in_tone(Tone::TextMuted)),
            ),
            blank_row(),
        ]
    }
}

fn issue_lines(n: usize) -> (r: Vec<Line>)
    ensures
        rows(r@) == issue_rows(n as nat),
{
    let mut out: Vec<Line> = Vec::new();
    if n > 0 {
        let word = if n == 1 {
            "issue"
        } else {
            "issues"
        };
        out.push(
            line3(
                span(
                    cat4(count_text(n).as_str(), " setup ", word, ": "),
                    Style::fg(Tone::Warning).bold(),
                ),
                span("MCP".to_owned(), Style::fg(Tone::Warning)),
                span(" · /doctor".to_owned(), Style::fg(Tone::TextMuted)),
            ),
        );
        out.push(blank_line());
    }
    assert(rows(out@) =~= issue_rows(n as nat));
    out
}

/// The invitation and the first keys.
pub open spec fn prompt_rows() -> Seq<Row> {
    let muted = Style::in_tone(Tone::TextMuted);
    seq![
        row1("What can I help you with?"@, muted),
        blank_row(),
        row1("  ?    keybindings"@, muted),
        row1("  Ctrl+P    palette · Ctrl+M    model picker"@, muted),
    ]
}

fn prompt_lines() -> (r: Vec<Line>)
    ensures
        rows(r@) == prompt_rows(),
{
    let muted = Style::fg(Tone::TextMuted);
    let mut out: Vec<Line> = Vec::new();
    out.push(line1("What can I help you with?".to_owned(), muted));
    out.push(blank_line());
    out.push(line1("  ?    keybindings".to_owned(), muted));
    out.push(line1("  Ctrl+P    palette · Ctrl+M    model picker".to_owned(), muted));
    assert(rows(out@) =~= prompt_rows());
    out
}

/// What an empty session shows.
pub open spec fn empty_session(h: SessionHeader, width: nat) -> Seq<Row> {
    header_rows(h, width) + issue_rows(h.setup_issues as nat) + prompt_rows()
}

/// What an empty session shows: where one is, what is missing, and the first
/// keys.
pub fn empty_session_lines(h: &SessionHeader, width: u16) -> (r: Vec<Line>)
    ensures
        rows(r@) == empty_session(*h, width as nat),
{
    let mut out = header_lines(h, width);
    push_lines(&mut out, issue_lines(h.setup_issues));
    push_lines(&mut out, prompt_lines());
    out
}

/// The first screen tells the version, the model with its context, effort and provider,
/// and the directory.
pub proof fn law_first_screen_tells_what_runs(h: SessionHeader, width: nat)
    ensures
        shows(empty_session(h, width), h.version@),
        shows(empty_session(h, width), model_label(h.model@, h.maker@)),
        shows(empty_session(h, width), window_text(h.context_window as nat)),
        shows(empty_session(h, width), effort_text(opt_text(h.effort_badge))),
        shows(empty_session(h, width), provider_name(h.provider@)),
        shows(empty_session(h, width), shortened(h.cwd@, 72)),
{
    let all = empty_session(h, width);
    let head = header_rows(h, width);
    assert(all[0] == head[0] && all[1] == head[1] && all[2] == head[2]);
    let model = row1(model_text(h), Style::in_tone(Tone::TextSecondary));
    let cwd = row1(shortened(h.cwd@, 72), Style::in_tone(Tone::TextSecondary));
    lemma_has_in_sum(" v"@, h.version@, h.version@);
    lemma_has_itself(shortened(h.cwd@, 72));
    lemma_model_text(h);
    lemma_in_row(0, title_spans(h), 1, h.version@, all[0]);
    lemma_in_row(1, model, 0, model_label(h.model@, h.maker@), all[1]);
    lemma_in_row(1, model, 0, window_text(h.context_window as nat), all[1]);
    lemma_in_row(1, model, 0, effort_text(opt_text(h.effort_badge)), all[1]);
    lemma_in_row(1, model, 0, provider_name(h.provider@), all[1]);
    lemma_in_row(2, cwd, 0, shortened(h.cwd@, 72), all[2]);
}

proof fn lemma_in_row(n: nat, text: Row, k: int, w: Seq<char>, row: Row)
    requires
        0 <= k < text.len(),
        has_text(text[k].0, w),
        row == text || row == beside_logo(n, text),
    ensures
        has_text(row_text(row), w),
{
    lemma_row_has(text, k, w);
    let front = logo_row(n) + seq![("  "@, Style::plain_style())];
    lemma_row_text_adds(front, text);
    lemma_has_in_sum(row_text(front), row_text(text), w);
}

proof fn lemma_model_text(h: SessionHeader)
    ensures
        has_text(model_text(h), model_label(h.model@, h.maker@)),
        has_text(model_text(h), window_text(h.context_window as nat)),
        has_text(model_text(h), effort_text(opt_text(h.effort_badge))),
        has_text(model_text(h), provider_name(h.provider@)),
{
    let a = model_label(h.model@, h.maker@);
    let b = window_text(h.context_window as nat);
    let c = effort_text(opt_text(h.effort_badge));
    let d = provider_name(h.provider@);
    lemma_five_pieces(a, b, c, d);
}

proof fn lemma_five_pieces(a: Seq<char>, b: Seq<char>, c: Seq<char>, d: Seq<char>)
    ensures
        ({
            let all = a + " ("@ + b + (") with "@ + c + " · "@ + d);
            has_text(all, a) && has_text(all, b) && has_text(all, c) && has_text(all, d)
        }),
{
    let front = a + " ("@ + b;
    let end = ") with "@ + c + " · "@ + d;
    lemma_has_itself(a);
    lemma_has_in_sum(a, " ("@, a);
    lemma_has_in_sum(a + " ("@, b, a);
    lemma_has_in_sum(") with "@, c, c);
    lemma_has_in_sum(") with "@ + c, " · "@, c);
    lemma_has_in_sum(") with "@ + c + " · "@, d, c);
    lemma_has_in_sum(front, end, a);
    lemma_has_in_sum(front, end, b);
    lemma_has_in_sum(front, end, c);
    lemma_has_in_sum(front, end, d);
}

/// Servers that could not be started are counted on the first screen.
pub proof fn law_setup_issues_are_counted(h: SessionHeader, width: nat)
    requires
        h.setup_issues > 0,
    ensures
        shows(empty_session(h, width), decimal(h.setup_issues as nat) + " setup issue"@),
{
    let all = empty_session(h, width);
    let head = header_rows(h, width);
    let row = issue_rows(h.setup_issues as nat)[0];
    assert(all[head.len() as int] == row);
    let n = decimal(h.setup_issues as nat);
    reveal_strlit(" setup ");
    reveal_strlit("issue");
    reveal_strlit("issues");
    reveal_strlit(" setup issue");
    let w = n + " setup issue"@;
    assert(row[0].0.subrange(0, w.len() as int) =~= w);
    assert(crate::slicing::occurs_at(row[0].0, w, 0));
    lemma_row_has(row, 0, w);
}

/// The size of a context is told in millions, thousands or single tokens, whole where it
/// is whole.
pub proof fn law_windows_are_told_in_round_numbers(n: nat)
    ensures
        n >= 1_000_000 && n % 1_000_000 == 0 ==> window_text(n) == decimal(n / 1_000_000) + "M context"@,
        1_000 <= n < 1_000_000 ==> window_text(n) == decimal(n / 1_000) + "k context"@,
        n < 1_000 ==> window_text(n) == decimal(n) + " context"@,
        n >= 1_000_000 && n % 1_000_000 != 0 ==> crate::slicing::has_prefix(window_text(n), decimal(n / 1_000_000) + "."@),
{
    if n >= 1_000_000 && n % 1_000_000 != 0 {
        let w = decimal(n / 1_000_000) + "."@;
        assert(window_text(n).subrange(0, w.len() as int) =~= w);
    }
}

/// A model of a known family is called by the family and its version.
pub proof fn law_models_are_called_by_their_family(maker: Seq<char>, rest: Seq<char>)
    requires
        version_of(rest).len() > 0,
    ensures
        model_label(maker + "opus-"@ + rest, maker) == "Opus "@ + version_of(rest),
        model_label(maker + "sonnet-"@ + rest, maker) == "Sonnet "@ + version_of(rest),
        model_label(maker + "haiku-"@ + rest, maker) == "Haiku "@ + version_of(rest),
{
    lemma_family(maker, "opus-"@, rest);
    lemma_family(maker, "sonnet-"@, rest);
    lemma_family(maker, "haiku-"@, rest);
    reveal_strlit("opus-");
    reveal_strlit("sonnet-");
    reveal_strlit("haiku-");
    reveal_strlit("Opus");
    reveal_strlit("Opus ");
    reveal_strlit("Sonnet");
    reveal_strlit("Sonnet ");
    reveal_strlit("Haiku");
    reveal_strlit("Haiku ");
    reveal_strlit(" ");
    let s = "sonnet-"@ + rest;
    let h = "haiku-"@ + rest;
    assert(s[0] == 's' && h[0] == 'h');
    assert(!crate::slicing::has_prefix(s, "opus-"@)) by {
        if crate::slicing::has_prefix(s, "opus-"@) {
            assert(s.subrange(0, 5)[0] == s[0]);
        }
    }
    assert(!crate::slicing::has_prefix(h, "opus-"@)) by {
        if crate::slicing::has_prefix(h, "opus-"@) {
            assert(h.subrange(0, 5)[0] == h[0]);
        }
    }
    assert(!crate::slicing::has_prefix(h, "sonnet-"@)) by {
        if crate::slicing::has_prefix(h, "sonnet-"@) {
            assert(h.subrange(0, 7)[0] == h[0]);
        }
    }
    let v = version_of(rest);
    assert("Opus"@ + " "@ + v =~= "Opus "@ + v);
    assert("Sonnet"@ + " "@ + v =~= "Sonnet "@ + v);
    assert("Haiku"@ + " "@ + v =~= "Haiku "@ + v);
}

proof fn lemma_family(maker: Seq<char>, family: Seq<char>, rest: Seq<char>)
    ensures
        after_prefix(maker + family + rest, maker) == Some(family + rest),
        after_prefix(family + rest, family) == Some(rest),
{
    let all = maker + family + rest;
    assert(all.subrange(0, maker.len() as int) =~= maker);
    assert(all.skip(maker.len() as int) =~= family + rest);
    assert((family + rest).subrange(0, family.len() as int) =~= family);
    assert((family + rest).skip(family.len() as int) =~= rest);
}

/// A window is told in millions, with one digit behind the point where it is no round
/// number, in thousands or as it is.
pub proof fn law_windows_are_told_in_their_unit(millions: nat, tenths: nat, rest: nat)
    requires
        tenths < 10,
        rest < 100_000,
        tenths + rest > 0,
    ensures
        millions > 0 ==> window_text(millions * 1_000_000 + tenths * 100_000 + rest) == decimal(millions) + "."@
            + decimal(tenths) + "M context"@,
        millions > 0 ==> window_text(millions * 1_000_000) == decimal(millions) + "M context"@,
        0 < millions < 1_000 && rest < 1_000 ==> window_text(millions * 1_000 + rest) == decimal(millions)
            + "k context"@,
        rest < 1_000 ==> window_text(rest) == decimal(rest) + " context"@,
{
    let n = millions * 1_000_000 + tenths * 100_000 + rest;
    assert(n / 1_000_000 == millions);
    assert(n % 1_000_000 == tenths * 100_000 + rest);
    assert(n % 1_000_000 / 100_000 == tenths);
}

} // verus!
