//! The info sidebar.
//!
//! Every section of the sidebar is a list of rows made from plain state. The
//! sidebar is the sections one after the other.
use vstd::prelude::*;

use crate::descriptors::{
    MetricDescriptor, RuntimeActionDescriptor, UiMutationScope, UiPanelDescriptor, UiPanelRefreshStatuses,
    UiPanelSnapshots, UiWidgetDescriptor, UiWidgetRefreshStatuses, UiWidgetSnapshots,
};
use crate::fitting::{
    align_left, align_right, fmt_number, grouped, left_aligned, pad_left, padded, right_aligned, shortened,
    truncate_str, wrap_text_to_width, wrapped,
};
use crate::order::{rank_order, sort_stable, sorted, text_before, text_is_before, Ranked};
use crate::plugin_health::{
    cache_metric_rows, cache_read_total, cache_rows, detail_health, input_total, is_alert,
    is_warning, metric_panel_descriptor_rows, panel_metric_rows, plugin_detail_health,
    plugin_details, plugin_health_detail_render_rows, plugin_health_is_alert,
    plugin_health_is_warning, report_of, rsi_metric_rows, rsi_rows, PluginDetailRowTone,
    PluginHealthSummary, PluginReloadReport, RsiCounts, detail_rows,
};
use crate::plugin_rows::{
    info_sidebar_panel_sections, section_model, section_models, shown_panels, ui_widget_panel_rows, widget_rows,
    FocusedUiItem, PluginPanelSection,
};
use crate::slicing::{group_texts, repeat, repeated, texts};
use crate::styled::{
    blank_line, blank_row, group_rows, line1, line2, line4, push_lines, row1, row2, row4, rows,
    span, spans_of, team_color, teammate_color, Line, Span, Style, Tone,
};
use crate::text::{cat2, cat3, count_text, decimal, decimal_text, same_text};
use crate::time::Instant;
use crate::transcript::ModelUsage;

verus! {

broadcast use {group_texts, group_rows};

/// The name under which the leader of a team is listed.
pub const TEAM_LEAD_NAME: &'static str = "team-lead";

// ── helpers ─────────────────────────────────────────────────────────────

/// `width` less `n`, or nothing.
pub open spec fn less(width: u16, n: nat) -> nat {
    if width as nat >= n {
        (width - n) as nat
    } else {
        0
    }
}

/// The heading of a section.
pub open spec fn heading(label: Seq<char>) -> Seq<(Seq<char>, Style)> {
    row1(label, Style::in_tone(Tone::TextPrimary).made_bold())
}

fn section(label: &str) -> (r: Line)
    ensures
        r@ == heading(label@),
{
    line1(label.to_owned(), Style::fg(Tone::TextPrimary).bold())
}

/// A row of a section's body, indented by two.
pub open spec fn body_row(text: Seq<char>, width: u16, tone: Tone) -> Seq<(Seq<char>, Style)> {
    row1("  "@ + shortened(text, less(width, 2)), Style::in_tone(tone))
}

fn body_line(text: &str, width: u16, tone: Tone) -> (r: Line)
    ensures
        r@ == body_row(text@, width, tone),
{
    line1(cat2("  ", truncate_str(text, width.saturating_sub(2) as usize).as_str()), Style::fg(tone))
}

/// Muted rows of a section's body.
pub open spec fn muted_rows(texts: Seq<Seq<char>>, width: u16) -> Seq<Seq<(Seq<char>, Style)>> {
    texts.map_values(|t: Seq<char>| body_row(t, width, Tone::TextMuted))
}

fn push_muted_rows(lines: &mut Vec<Line>, texts_in: &Vec<String>, width: u16)
    ensures
        rows(final(lines)@) == rows(old(lines)@) + muted_rows(texts(texts_in@), width),
{
    let ghost before = rows(lines@);
    let ghost more = muted_rows(texts(texts_in@), width);
    let mut i: usize = 0;
    assert(before + more.take(0) =~= before);
    while i < texts_in.len()
        invariant
            i <= texts_in@.len(),
            more == muted_rows(texts(texts_in@), width),
            rows(lines@) == before + more.take(i as int),
        decreases texts_in@.len() - i,
    {
        lines.push(body_line(texts_in[i].as_str(), width, Tone::TextMuted));
        assert(rows(lines@) =~= before + more.take(i + 1));
        i += 1;
    }
    assert(more.take(i as int) =~= more);
}

/// A titled list: nothing at all where it is empty.
pub open spec fn titled(label: Seq<char>, body: Seq<Seq<(Seq<char>, Style)>>) -> Seq<Seq<(Seq<char>, Style)>> {
    if body.len() == 0 {
        Seq::empty()
    } else {
        seq![heading(label)] + body + seq![blank_row()]
    }
}

// ── session ─────────────────────────────────────────────────────────────

/// What is known of a saved session.
#[derive(Debug, Clone)]
pub struct SessionMeta {
    pub id: String,
    pub display_title: String,
}

/// The title of the session: that of its first entry, else its id.
pub open spec fn title_of(metas: Seq<SessionMeta>, id: Seq<char>, from: int) -> Seq<char>
    decreases metas.len() - from,
{
    if from < 0 || from >= metas.len() {
        id
    } else if metas[from].id@ == id {
        metas[from].display_title@
    } else {
        title_of(metas, id, from + 1)
    }
}

fn find_title(metas: &Vec<SessionMeta>, id: &str) -> (r: String)
    ensures
        r@ == title_of(metas@, id@, 0),
{
    let mut i: usize = 0;
    while i < metas.len()
        invariant
            i <= metas@.len(),
            title_of(metas@, id@, 0) == title_of(metas@, id@, i as int),
        decreases metas@.len() - i,
    {
        if same_text(metas[i].id.as_str(), id) {
            return metas[i].display_title.clone();
        }
        i += 1;
    }
    id.to_owned()
}

/// The session section: heading, title, and the id where there is one.
pub open spec fn session_rows(current: Option<String>, metas: Seq<SessionMeta>, width: u16) -> Seq<
    Seq<(Seq<char>, Style)>,
> {
    let bold = Style::in_tone(Tone::TextPrimary).made_bold();
    match current {
        None => seq![heading("Session"@), row1(shortened("untitled"@, width as nat), bold), blank_row()],
        Some(id) => {
            let title = row1(shortened(title_of(metas, id@, 0), width as nat), bold);
            if id@.len() == 0 {
                seq![heading("Session"@), title, blank_row()]
            } else {
                seq![heading("Session"@), title, body_row(id@, width, Tone::TextMuted), blank_row()]
            }
        },
    }
}

fn session_lines(current: &Option<String>, metas: &Vec<SessionMeta>, width: u16) -> (r: Vec<Line>)
    ensures
        rows(r@) == session_rows(*current, metas@, width),
{
    let mut lines: Vec<Line> = Vec::new();
    let bold = Style::fg(Tone::TextPrimary).bold();
    lines.push(section("Session"));
    match current {
        None => {
            lines.push(line1(truncate_str("untitled", width as usize), bold));
        },
        Some(id) => {
            let title = find_title(metas, id.as_str());
            lines.push(line1(truncate_str(title.as_str(), width as usize), bold));
            if !id.as_str().is_empty() {
                lines.push(body_line(id.as_str(), width, Tone::TextMuted));
            }
        },
    }
    lines.push(blank_line());
    assert(rows(lines@) =~= session_rows(*current, metas@, width));
    lines
}

// ── context ─────────────────────────────────────────────────────────────

/// How long a part of a message is, in bytes, by what it is.
#[derive(Debug, Clone, Copy, PartialEq, Eq, Structural)]
pub enum PartSize {
    Tool { input_len: usize, output_len: usize },
    CompactBoundary,
    ReasoningSignature,
    Other(usize),
}

/// Where the tokens of a transcript go.
#[derive(Debug, Clone, Copy, PartialEq, Eq, Structural)]
pub struct TranscriptBreakdown {
    pub conversation_tokens: u64,
    pub tool_call_tokens: u64,
    pub compartment_tokens: u64,
}

/// The sum, or the largest number.
pub open spec fn sat(a: int, b: int) -> u64 {
    if a + b > u64::MAX {
        u64::MAX
    } else {
        (a + b) as u64
    }
}

/// About how many tokens that many characters are.
pub open spec fn tokens_of(chars: usize) -> u64 {
    (if chars + 3 > usize::MAX {
        usize::MAX as int / 4
    } else {
        (chars + 3) / 4
    }) as u64
}

/// About how many tokens that many characters are.
pub fn tokens_from_chars(chars: usize) -> (r: u64)
    ensures
        r == tokens_of(chars),
{
    (chars.saturating_add(3) / 4) as u64
}

/// The message carries the summary of a compaction.
pub open spec fn is_compartment(parts: Seq<PartSize>) -> bool {
    exists|i: int| 0 <= i < parts.len() && (#[trigger] parts[i]) == PartSize::CompactBoundary
}

/// The breakdown with one more part.
pub open spec fn with_part_counted(b: TranscriptBreakdown, p: PartSize, compartment: bool) -> TranscriptBreakdown {
    match p {
        PartSize::Tool { input_len, output_len } => TranscriptBreakdown {
            tool_call_tokens: sat(
                sat(b.tool_call_tokens as int, tokens_of(input_len) as int) as int,
                tokens_of(output_len) as int,
            ),
            ..b
        },
        PartSize::CompactBoundary | PartSize::ReasoningSignature => b,
        PartSize::Other(len) => if compartment {
            TranscriptBreakdown {
                compartment_tokens: sat(b.compartment_tokens as int, tokens_of(len) as int),
                ..b
            }
        } else {
            TranscriptBreakdown {
                conversation_tokens: sat(b.conversation_tokens as int, tokens_of(len) as int),
                ..b
            }
        },
    }
}

/// The breakdown with the parts of one more message.
pub open spec fn with_parts_counted(b: TranscriptBreakdown, parts: Seq<PartSize>, compartment: bool) -> TranscriptBreakdown
    decreases parts.len(),
{
    if parts.len() == 0 {
        b
    } else {
        with_part_counted(with_parts_counted(b, parts.drop_last(), compartment), parts.last(), compartment)
    }
}

/// Where the tokens of the messages go.
pub open spec fn breakdown_of(messages: Seq<Vec<PartSize>>) -> TranscriptBreakdown
    decreases messages.len(),
{
    if messages.len() == 0 {
        TranscriptBreakdown { conversation_tokens: 0, tool_call_tokens: 0, compartment_tokens: 0 }
    } else {
        with_parts_counted(
            breakdown_of(messages.drop_last()),
            messages.last()@,
            is_compartment(messages.last()@),
        )
    }
}

fn has_boundary(parts: &Vec<PartSize>) -> (r: bool)
    ensures
        r == is_compartment(parts@),
{
    let mut i: usize = 0;
    while i < parts.len()
        invariant
            i <= parts@.len(),
            forall|j: int| 0 <= j < i ==> (#[trigger] parts@[j]) != PartSize::CompactBoundary,
        decreases parts@.len() - i,
    {
        if parts[i] == PartSize::CompactBoundary {
            return true;
        }
        i += 1;
    }
    false
}

fn count_part(b: TranscriptBreakdown, p: PartSize, compartment: bool) -> (r: TranscriptBreakdown)
    ensures
        r == with_part_counted(b, p, compartment),
{
    match p {
        PartSize::Tool { input_len, output_len } => TranscriptBreakdown {
            tool_call_tokens: b.tool_call_tokens.saturating_add(tokens_from_chars(input_len)).saturating_add(
                tokens_from_chars(output_len),
            ),
            ..b
        },
        PartSize::CompactBoundary => b,
        PartSize::ReasoningSignature => b,
        PartSize::Other(len) => if compartment {
            TranscriptBreakdown {
                compartment_tokens: b.compartment_tokens.saturating_add(tokens_from_chars(len)),
                ..b
            }
        } else {
            TranscriptBreakdown {
                conversation_tokens: b.conversation_tokens.saturating_add(tokens_from_chars(len)),
                ..b
            }
        },
    }
}

/// Where the tokens of the messages go.
pub fn transcript_breakdown(messages: &Vec<Vec<PartSize>>) -> (r: TranscriptBreakdown)
    ensures
        r == breakdown_of(messages@),
{
    let mut out = TranscriptBreakdown { conversation_tokens: 0, tool_call_tokens: 0, compartment_tokens: 0 };
    let mut i: usize = 0;
    while i < messages.len()
        invariant
            i <= messages@.len(),
            out == breakdown_of(messages@.take(i as int)),
        decreases messages@.len() - i,
    {
        let parts = &messages[i];
        let ghost before = out;
        let compartment = has_boundary(parts);
        let mut k: usize = 0;
        while k < parts.len()
            invariant
                k <= parts@.len(),
                out == with_parts_counted(before, parts@.take(k as int), compartment),
            decreases parts@.len() - k,
        {
            assert(parts@.take(k + 1).drop_last() =~= parts@.take(k as int));
            out = count_part(out, parts[k], compartment);
            k += 1;
        }
        assert(parts@.take(k as int) =~= parts@);
        assert(messages@.take(i + 1).drop_last() =~= messages@.take(i as int));
        i += 1;
    }
    assert(messages@.take(i as int) =~= messages@);
    out
}

/// What a request is made of, in tokens.
#[derive(Debug, Clone, Copy, PartialEq, Eq, Structural)]
pub struct ContextBudget {
    pub user_message_tokens: u64,
    pub system_prompt_tokens: u64,
    pub project_instructions_tokens: u64,
    pub memory_tokens: u64,
    pub tool_definition_tokens: u64,
}

/// One entry of the context breakdown.
#[derive(Debug, Clone, Copy, PartialEq, Eq, Structural)]
pub struct ContextShare {
    pub tokens: u64,
    pub tone: Tone,
}

/// The labels of the context breakdown.
pub open spec fn share_label(i: int) -> Seq<char> {
    if i == 0 {
        "System"@
    } else if i == 1 {
        "Docs"@
    } else if i == 2 {
        "Compartments"@
    } else if i == 3 {
        "Memories"@
    } else if i == 4 {
        "Conversation"@
    } else if i == 5 {
        "Tool Calls"@
    } else {
        "Tool Defs"@
    }
}

fn share_text(i: usize) -> (r: &'static str)
    ensures
        r@ == share_label(i as int),
{
    if i == 0 {
        "System"
    } else if i == 1 {
        "Docs"
    } else if i == 2 {
        "Compartments"
    } else if i == 3 {
        "Memories"
    } else if i == 4 {
        "Conversation"
    } else if i == 5 {
        "Tool Calls"
    } else {
        "Tool Defs"
    }
}

/// The context breakdown: what of the budget is not in the transcript counts as
/// conversation.
pub open spec fn context_shares(
    b: TranscriptBreakdown,
    budget: Option<ContextBudget>,
    last_system_prompt_len: Option<usize>,
) -> Seq<ContextShare> {
    let transcript = sat(
        sat(b.conversation_tokens as int, b.tool_call_tokens as int) as int,
        b.compartment_tokens as int,
    );
    let rest: u64 = match budget {
        Some(g) => if g.user_message_tokens >= transcript {
            (g.user_message_tokens - transcript) as u64
        } else {
            0
        },
        None => 0,
    };
    seq![
        ContextShare {
            tokens: match budget {
                Some(g) => g.system_prompt_tokens,
                None => match last_system_prompt_len {
                    Some(n) => n as u64,
                    None => 0,
                },
            },
            tone: Tone::Accent,
        },
        ContextShare {
            tokens: match budget {
                Some(g) => g.project_instructions_tokens,
                None => 0,
            },
            tone: Tone::AccentSecondary,
        },
        ContextShare { tokens: b.compartment_tokens, tone: Tone::TextSecondary },
        ContextShare {
            tokens: match budget {
                Some(g) => g.memory_tokens,
                None => 0,
            },
            tone: Tone::Success,
        },
        ContextShare { tokens: sat(rest as int, b.conversation_tokens as int), tone: Tone::Error },
        ContextShare { tokens: b.tool_call_tokens, tone: Tone::Warning },
        ContextShare {
            tokens: match budget {
                Some(g) => g.tool_definition_tokens,
                None => 0,
            },
            tone: Tone::Reasoning,
        },
    ]
}

/// The context breakdown: system prompt, project documents, summaries of
/// compacted turns, memories, conversation, tool calls and tool definitions.
pub fn context_breakdown_rows(
    messages: &Vec<Vec<PartSize>>,
    budget: Option<ContextBudget>,
    last_system_prompt_len: Option<usize>,
) -> (r: Vec<ContextShare>)
    ensures
        r@ == context_shares(breakdown_of(messages@), budget, last_system_prompt_len),
{
    let b = transcript_breakdown(messages);
    let transcript: u64 = b.conversation_tokens.saturating_add(b.tool_call_tokens).saturating_add(
        b.compartment_tokens,
    );
    let rest: u64 = match budget {
        Some(g) => g.user_message_tokens.saturating_sub(transcript),
        None => 0,
    };
    let conversation: u64 = rest.saturating_add(b.conversation_tokens);
    let system: u64 = match budget {
        Some(g) => g.system_prompt_tokens,
        None => match last_system_prompt_len {
            Some(n) => n as u64,
            None => 0,
        },
    };
    let (docs, memory, tool_defs): (u64, u64, u64) = match budget {
        Some(g) => (g.project_instructions_tokens, g.memory_tokens, g.tool_definition_tokens),
        None => (0, 0, 0),
    };
    let mut out: Vec<ContextShare> = Vec::new();
    out.push(ContextShare { tokens: system, tone: Tone::Accent });
    out.push(ContextShare { tokens: docs, tone: Tone::AccentSecondary });
    out.push(ContextShare { tokens: b.compartment_tokens, tone: Tone::TextSecondary });
    out.push(ContextShare { tokens: memory, tone: Tone::Success });
    out.push(ContextShare { tokens: conversation, tone: Tone::Error });
    out.push(ContextShare { tokens: b.tool_call_tokens, tone: Tone::Warning });
    out.push(ContextShare { tokens: tool_defs, tone: Tone::Reasoning });
    assert(out@ =~= context_shares(b, budget, last_system_prompt_len));
    out
}

/// The tokens of all shares.
pub open spec fn share_sum(shares: Seq<ContextShare>) -> nat
    decreases shares.len(),
{
    if shares.len() == 0 {
        0
    } else {
        share_sum(shares.drop_last()) + shares.last().tokens as nat
    }
}

/// What the shares are shares of: their sum, or what is in use where that is
/// more, and at least one token.
pub open spec fn share_total(shares: Seq<ContextShare>, total_tokens: u64) -> nat {
    let sum = share_sum(shares);
    let most = if sum >= total_tokens {
        sum
    } else {
        total_tokens as nat
    };
    if most >= 1 {
        most
    } else {
        1
    }
}

proof fn lemma_share_sum_grows(shares: Seq<ContextShare>, i: int)
    requires
        0 <= i <= shares.len(),
    ensures
        share_sum(shares.take(i)) <= share_sum(shares),
    decreases shares.len() - i,
{
    if i < shares.len() {
        assert(shares.take(i + 1).drop_last() =~= shares.take(i));
        lemma_share_sum_grows(shares, i + 1);
    } else {
        assert(shares.take(i) =~= shares);
    }
}

/// What the shares are shares of.
pub fn context_row_total(shares: &Vec<ContextShare>, total_tokens: u64) -> (r: u64)
    requires
        share_sum(shares@) <= u64::MAX,
    ensures
        r == share_total(shares@, total_tokens),
        r >= 1,
{
    let mut sum: u64 = 0;
    let mut i: usize = 0;
    assert(shares@.take(0) =~= Seq::<ContextShare>::empty());
    while i < shares.len()
        invariant
            i <= shares@.len(),
            share_sum(shares@) <= u64::MAX,
            sum == share_sum(shares@.take(i as int)),
        decreases shares@.len() - i,
    {
        proof {
            assert(shares@.take(i + 1).drop_last() =~= shares@.take(i as int));
            lemma_share_sum_grows(shares@, i + 1);
        }
        sum = sum + shares[i].tokens;
        i += 1;
    }
    assert(shares@.take(i as int) =~= shares@);
    let most: u64 = if sum >= total_tokens {
        sum
    } else {
        total_tokens
    };
    if most >= 1 {
        most
    } else {
        1
    }
}

// ── the breakdown bar ───────────────────────────────────────────────────

/// Whether a later share has any tokens.
pub open spec fn any_after(shares: Seq<ContextShare>, i: int) -> bool {
    exists|j: int| i < j < shares.len() && (#[trigger] shares[j]).tokens > 0
}

/// The columns of one share: all that are left for the last share that has
/// tokens, else its rounded part, but never more than are left.
pub open spec fn share_cells(shares: Seq<ContextShare>, cells: Seq<usize>, i: int, left: nat) -> nat {
    if shares[i].tokens == 0 {
        0
    } else if !any_after(shares, i) {
        left
    } else if i < cells.len() && (cells[i] as nat) <= left {
        cells[i] as nat
    } else if i < cells.len() {
        left
    } else {
        0
    }
}

/// The columns that the first `n` shares take.
pub open spec fn used_cells(shares: Seq<ContextShare>, cells: Seq<usize>, width: nat, n: nat) -> nat
    decreases n,
{
    if n == 0 {
        0
    } else {
        let used = used_cells(shares, cells, width, (n - 1) as nat);
        used + share_cells(shares, cells, n - 1, (if used <= width {
            width - used
        } else {
            0
        }) as nat)
    }
}

/// The spans of the first `n` shares.
pub open spec fn bar_spans(shares: Seq<ContextShare>, cells: Seq<usize>, width: nat, n: nat) -> Seq<(Seq<char>, Style)>
    decreases n,
{
    if n == 0 {
        Seq::empty()
    } else {
        let used = used_cells(shares, cells, width, (n - 1) as nat);
        let c = share_cells(shares, cells, n - 1, (if used <= width {
            width - used
        } else {
            0
        }) as nat);
        let before = bar_spans(shares, cells, width, (n - 1) as nat);
        if c > 0 {
            before.push((repeated("█"@, c), Style::in_tone(shares[n - 1].tone)))
        } else {
            before
        }
    }
}

/// The bar: the shares in their colours, and what is left in the border's.
pub open spec fn breakdown_bar(shares: Seq<ContextShare>, cells: Seq<usize>, width: nat) -> Seq<(Seq<char>, Style)> {
    let used = used_cells(shares, cells, width, shares.len());
    let spans = bar_spans(shares, cells, width, shares.len());
    if used < width {
        spans.push((repeated("░"@, (width - used) as nat), Style::in_tone(Tone::Border)))
    } else {
        spans
    }
}

proof fn lemma_used_cells(shares: Seq<ContextShare>, cells: Seq<usize>, width: nat, n: nat)
    ensures
        used_cells(shares, cells, width, n) <= width,
    decreases n,
{
    if n > 0 {
        lemma_used_cells(shares, cells, width, (n - 1) as nat);
    }
}

fn has_tokens_after(shares: &Vec<ContextShare>, i: usize) -> (r: bool)
    requires
        i < shares@.len(),
    ensures
        r == any_after(shares@, i as int),
{
    let n: usize = shares.len();
    let mut k: usize = i + 1;
    while k < n
        invariant
            n == shares@.len(),
            i < k <= shares@.len(),
            forall|j: int| i < j < k ==> (#[trigger] shares@[j]).tokens == 0,
        decreases shares@.len() - k,
    {
        if shares[k].tokens > 0 {
            return true;
        }
        k += 1;
    }
    false
}

/// The bar of the context breakdown. `cells` gives the rounded columns of each
/// share, which are at least one.
pub fn context_breakdown_bar(shares: &Vec<ContextShare>, cells: &Vec<usize>, width: usize) -> (r: Line)
    ensures
        r@ == breakdown_bar(shares@, cells@, width as nat),
{
    let mut spans: Vec<Span> = Vec::new();
    let mut used: usize = 0;
    let mut i: usize = 0;
    while i < shares.len()
        invariant
            i <= shares@.len(),
            used <= width,
            used == used_cells(shares@, cells@, width as nat, i as nat),
            spans_of(spans@) == bar_spans(shares@, cells@, width as nat, i as nat),
        decreases shares@.len() - i,
    {
        let left: usize = width - used;
        let c: usize = if shares[i].tokens == 0 {
            0
        } else if !has_tokens_after(shares, i) {
            left
        } else if i < cells.len() {
            if cells[i] <= left {
                cells[i]
            } else {
                left
            }
        } else {
            0
        };
        if c > 0 {
            spans.push(span(repeat("█", c), Style::fg(shares[i].tone)));
        }
        used = used + c;
        i += 1;
    }
    if used < width {
        spans.push(span(repeat("░", width - used), Style::fg(Tone::Border)));
    }
    Line { spans }
}

/// The columns of a bar's spans.
pub open spec fn bar_length(spans: Seq<(Seq<char>, Style)>) -> nat
    decreases spans.len(),
{
    if spans.len() == 0 {
        0
    } else {
        bar_length(spans.drop_last()) + spans.last().0.len()
    }
}

proof fn lemma_repeated_len(unit: Seq<char>, n: nat)
    requires
        unit.len() == 1,
    ensures
        repeated(unit, n).len() == n,
    decreases n,
{
    if n > 0 {
        lemma_repeated_len(unit, (n - 1) as nat);
    }
}

proof fn lemma_bar_spans_length(shares: Seq<ContextShare>, cells: Seq<usize>, width: nat, n: nat)
    ensures
        bar_length(bar_spans(shares, cells, width, n)) == used_cells(shares, cells, width, n),
    decreases n,
{
    if n > 0 {
        reveal_strlit("█");
        lemma_bar_spans_length(shares, cells, width, (n - 1) as nat);
        let used = used_cells(shares, cells, width, (n - 1) as nat);
        lemma_used_cells(shares, cells, width, (n - 1) as nat);
        let c = share_cells(shares, cells, n - 1, (width - used) as nat);
        lemma_repeated_len("█"@, c);
        let before = bar_spans(shares, cells, width, (n - 1) as nat);
        if c > 0 {
            let s = (repeated("█"@, c), Style::in_tone(shares[n - 1].tone));
            assert(before.push(s).drop_last() =~= before);
        }
    }
}

/// The bar is exactly as wide as asked for.
pub proof fn law_bar_fills_its_width(shares: Seq<ContextShare>, cells: Seq<usize>, width: nat)
    ensures
        bar_length(breakdown_bar(shares, cells, width)) == width,
{
    reveal_strlit("░");
    lemma_bar_spans_length(shares, cells, width, shares.len());
    lemma_used_cells(shares, cells, width, shares.len());
    let used = used_cells(shares, cells, width, shares.len());
    let spans = bar_spans(shares, cells, width, shares.len());
    if used < width {
        lemma_repeated_len("░"@, (width - used) as nat);
        let s = (repeated("░"@, (width - used) as nat), Style::in_tone(Tone::Border));
        assert(spans.push(s).drop_last() =~= spans);
    }
}

// ── context rows ────────────────────────────────────────────────────────

/// The smaller one.
pub open spec fn least(a: nat, b: nat) -> nat {
    if a <= b {
        a
    } else {
        b
    }
}

/// `a` less `b`, or nothing.
pub open spec fn minus(a: nat, b: nat) -> nat {
    if a >= b {
        (a - b) as nat
    } else {
        0
    }
}

/// One row of the breakdown: label, tokens and percent, each in its columns.
pub open spec fn share_row(i: int, share: ContextShare, total: nat, width: u16) -> Seq<(Seq<char>, Style)> {
    let scaled: nat = if share.tokens * 100 > u64::MAX {
        u64::MAX as nat
    } else {
        (share.tokens * 100) as nat
    };
    let percent = scaled / total;
    let percent_width = least(7, width as nat);
    let token_width = least(9, minus(width as nat, percent_width + 1));
    let spacer: nat = if token_width > 0 && percent_width > 0 {
        1
    } else {
        0
    };
    let label_width = minus(width as nat, token_width + spacer + percent_width);
    row4(
        (left_aligned(shortened(share_label(i), label_width), label_width), Style::in_tone(share.tone)),
        (right_aligned(grouped(share.tokens as nat), token_width), Style::in_tone(Tone::TextSecondary)),
        (repeated(" "@, spacer), Style::in_tone(Tone::TextMuted)),
        (
            right_aligned("("@ + decimal(percent) + "%)"@, percent_width),
            Style::in_tone(Tone::TextSecondary),
        ),
    )
}

fn share_line(i: usize, share: ContextShare, total: u64, width: u16) -> (r: Line)
    requires
        total >= 1,
    ensures
        r@ == share_row(i as int, share, total as nat, width),
{
    let scaled: u64 = match share.tokens.checked_mul(100) {
        Some(n) => n,
        None => u64::MAX,
    };
    let percent: u64 = scaled / total;
    let inner: usize = width as usize;
    let percent_width: usize = if inner < 7 {
        inner
    } else {
        7
    };
    let room: usize = inner.saturating_sub(percent_width.saturating_add(1));
    let token_width: usize = if room < 9 {
        room
    } else {
        9
    };
    let spacer: usize = if token_width > 0 && percent_width > 0 {
        1
    } else {
        0
    };
    let label_width: usize = inner.saturating_sub(token_width + spacer + percent_width);
    line4(
        span(
            align_left(truncate_str(share_text(i), label_width).as_str(), label_width),
            Style::fg(share.tone),
        ),
        span(align_right(fmt_number(share.tokens).as_str(), token_width), Style::fg(Tone::TextSecondary)),
        span(repeat(" ", spacer), Style::fg(Tone::TextMuted)),
        span(
            align_right(cat3("(", decimal_text(percent).as_str(), "%)").as_str(), percent_width),
            Style::fg(Tone::TextSecondary),
        ),
    )
}

/// The rows of the breakdown.
pub open spec fn share_rows(shares: Seq<ContextShare>, total: nat, width: u16) -> Seq<Seq<(Seq<char>, Style)>> {
    Seq::new(shares.len(), |i: int| share_row(i, shares[i], total, width))
}

/// The state of the context gauge. The percentage is rounded to a whole number.
#[derive(Debug, Clone, Copy, PartialEq, Eq, Structural)]
pub struct ContextGauge {
    pub total_tokens: u64,
    pub context_window: u64,
    pub percent: u64,
    pub tone: Tone,
}

/// The size of the window: at least one token.
pub open spec fn window_size(window: u64) -> u64 {
    if window >= 1 {
        window
    } else {
        1
    }
}

/// The context section.
pub open spec fn context_rows(
    gauge: ContextGauge,
    shares: Seq<ContextShare>,
    cells: Seq<usize>,
    width: u16,
) -> Seq<Seq<(Seq<char>, Style)>> {
    let head = seq![
        row2(
            (" ▼ Context "@, Style::in_tone(Tone::Background).on_tone(Tone::Accent).made_bold()),
            (" "@ + padded(decimal(gauge.percent as nat), 4) + "%"@, Style::in_tone(gauge.tone)),
        ),
        row1(
            grouped(gauge.total_tokens as nat) + " / "@ + grouped(window_size(gauge.context_window) as nat),
            Style::in_tone(Tone::TextSecondary),
        ),
    ];
    let bar = if less(width, 1) > 4 {
        seq![breakdown_bar(shares, cells, less(width, 1))]
    } else {
        Seq::empty()
    };
    head + bar + share_rows(shares, share_total(shares, gauge.total_tokens), width)
}

fn context_lines(gauge: ContextGauge, shares: &Vec<ContextShare>, cells: &Vec<usize>, width: u16) -> (r: Vec<Line>)
    requires
        share_sum(shares@) <= u64::MAX,
    ensures
        rows(r@) == context_rows(gauge, shares@, cells@, width),
{
    let mut lines: Vec<Line> = Vec::new();
    let total: u64 = context_row_total(shares, gauge.total_tokens);
    let window: u64 = if gauge.context_window >= 1 {
        gauge.context_window
    } else {
        1
    };
    lines.push(
        line2(
            span(" ▼ Context ".to_owned(), Style::fg(Tone::Background).on(Tone::Accent).bold()),
            span(
                cat3(" ", pad_left(decimal_text(gauge.percent).as_str(), 4).as_str(), "%"),
                Style::fg(gauge.tone),
            ),
        ),
    );
    lines.push(
        line1(
            cat3(fmt_number(gauge.total_tokens).as_str(), " / ", fmt_number(window).as_str()),
            Style::fg(Tone::TextSecondary),
        ),
    );
    let bar_width: usize = width.saturating_sub(1) as usize;
    if bar_width > 4 {
        lines.push(context_breakdown_bar(shares, cells, bar_width));
    }
    let ghost head = rows(lines@);
    let ghost tail = share_rows(shares@, total as nat, width);
    let mut i: usize = 0;
    assert(head + tail.take(0) =~= head);
    while i < shares.len()
        invariant
            i <= shares@.len(),
            total >= 1,
            tail == share_rows(shares@, total as nat, width),
            rows(lines@) == head + tail.take(i as int),
        decreases shares@.len() - i,
    {
        lines.push(share_line(i, shares[i], total, width));
        assert(rows(lines@) =~= head + tail.take(i + 1));
        i += 1;
    }
    assert(tail.take(i as int) =~= tail);
    assert(rows(lines@) =~= context_rows(gauge, shares@, cells@, width));
    lines
}

// ── tokens per turn ─────────────────────────────────────────────────────

/// The bar of a level from 0 to 7.
pub open spec fn level_bar(level: u8) -> char {
    if level == 0 {
        '▁'
    } else if level == 1 {
        '▂'
    } else if level == 2 {
        '▃'
    } else if level == 3 {
        '▄'
    } else if level == 4 {
        '▅'
    } else if level == 5 {
        '▆'
    } else if level == 6 {
        '▇'
    } else {
        '█'
    }
}

fn level_char(level: u8) -> (r: char)
    ensures
        r == level_bar(level),
{
    if level == 0 {
        '▁'
    } else if level == 1 {
        '▂'
    } else if level == 2 {
        '▃'
    } else if level == 3 {
        '▄'
    } else if level == 4 {
        '▅'
    } else if level == 5 {
        '▆'
    } else if level == 6 {
        '▇'
    } else {
        '█'
    }
}

/// The most recent levels that fit, as bars.
pub open spec fn spark_bars(levels: Seq<u8>, width: u16) -> Seq<char> {
    let start = minus(levels.len(), least(width as nat, levels.len()));
    levels.skip(start as int).map_values(|l: u8| level_bar(l))
}

/// The row of tokens per turn: nothing before the second turn.
pub open spec fn spark_rows(levels: Seq<u8>, width: u16) -> Seq<Seq<(Seq<char>, Style)>> {
    if levels.len() < 2 {
        Seq::empty()
    } else {
        seq![
            row2(
                ("tok/turn "@, Style::in_tone(Tone::TextMuted)),
                (spark_bars(levels, width), Style::in_tone(Tone::Accent)),
            ),
        ]
    }
}

fn spark_lines(levels: &Vec<u8>, width: u16) -> (r: Vec<Line>)
    ensures
        rows(r@) == spark_rows(levels@, width),
{
    let mut lines: Vec<Line> = Vec::new();
    if levels.len() >= 2 {
        let shown: usize = if (width as usize) < levels.len() {
            width as usize
        } else {
            levels.len()
        };
        let start: usize = levels.len() - shown;
        let ghost goal = spark_bars(levels@, width);
        let mut bars = String::new();
        let mut i: usize = start;
        assert(bars@ =~= goal.take(0));
        while i < levels.len()
            invariant
                start <= i <= levels@.len(),
                start == minus(levels@.len(), least(width as nat, levels@.len())),
                goal == spark_bars(levels@, width),
                bars@ == goal.take(i - start),
            decreases levels@.len() - i,
        {
            bars.push(level_char(levels[i]));
            assert(levels@.skip(start as int)[i - start] == levels@[i as int]);
            assert(goal.take(i + 1 - start) =~= goal.take(i - start).push(goal[i - start]));
            i += 1;
        }
        assert(goal.take(i - start) =~= goal);
        lines.push(
            line2(
                span("tok/turn ".to_owned(), Style::fg(Tone::TextMuted)),
                span(bars, Style::fg(Tone::Accent)),
            ),
        );
    }
    assert(rows(lines@) =~= spark_rows(levels@, width));
    lines
}

// ── plugins ─────────────────────────────────────────────────────────────

/// What is known of the plugins.
pub struct PluginState {
    pub metric_descriptors: Vec<MetricDescriptor>,
    pub ui_panel_descriptors: Vec<UiPanelDescriptor>,
    pub ui_panel_snapshots: UiPanelSnapshots,
    pub ui_panel_refresh_status: UiPanelRefreshStatuses,
    pub ui_widget_descriptors: Vec<UiWidgetDescriptor>,
    pub ui_widget_snapshots: UiWidgetSnapshots,
    pub ui_widget_refresh_status: UiWidgetRefreshStatuses,
    pub runtime_action_descriptors: Vec<RuntimeActionDescriptor>,
    pub health: PluginHealthSummary,
    pub reload_report: Option<PluginReloadReport>,
}

fn as_report(report: &Option<PluginReloadReport>) -> (r: Option<&PluginReloadReport>)
    ensures
        report_of(r) == *report,
{
    match report {
        Some(x) => Some(x),
        None => None,
    }
}

/// The panel metrics, introduced by a row of their own.
pub open spec fn announced_metrics(panel: Seq<Seq<char>>) -> Seq<Seq<char>> {
    if panel.len() == 0 {
        Seq::empty()
    } else {
        seq!["panel metrics"@] + panel.map_values(|row: Seq<char>| "panel "@ + row)
    }
}

/// The metric rows.
pub open spec fn metric_texts(
    plugins: PluginState,
    usage: Seq<(String, ModelUsage)>,
    hit_pct: Option<u64>,
    rsi: Option<RsiCounts>,
) -> Seq<Seq<char>> {
    cache_rows(plugins.metric_descriptors@, usage, hit_pct, plugins.reload_report) + rsi_rows(
        plugins.metric_descriptors@,
        rsi,
    ) + announced_metrics(panel_metric_rows(plugins.metric_descriptors@))
}

fn metric_lines(
    plugins: &PluginState,
    usage: &Vec<(String, ModelUsage)>,
    hit_pct: Option<u64>,
    rsi: Option<RsiCounts>,
    width: u16,
) -> (r: Vec<Line>)
    requires
        cache_read_total(usage@) <= u64::MAX,
        input_total(usage@) <= u64::MAX,
    ensures
        rows(r@) == titled("Metrics"@, muted_rows(metric_texts(*plugins, usage@, hit_pct, rsi), width)),
{
    let mut all = cache_metric_rows(
        plugins.metric_descriptors.as_slice(),
        usage,
        hit_pct,
        as_report(&plugins.reload_report),
    );
    let mut rsi_part = rsi_metric_rows(plugins.metric_descriptors.as_slice(), rsi);
    all.append(&mut rsi_part);
    let panel = metric_panel_descriptor_rows(plugins.metric_descriptors.as_slice());
    let ghost before = texts(all@);
    let ghost listed = texts(panel@).map_values(|row: Seq<char>| "panel "@ + row);
    if panel.len() > 0 {
        all.push("panel metrics".to_owned());
        let mut i: usize = 0;
        assert(before.push("panel metrics"@) + listed.take(0) =~= before.push("panel metrics"@));
        while i < panel.len()
            invariant
                i <= panel@.len(),
                listed == texts(panel@).map_values(|row: Seq<char>| "panel "@ + row),
                texts(all@) == before.push("panel metrics"@) + listed.take(i as int),
            decreases panel@.len() - i,
        {
            all.push(cat2("panel ", panel[i].as_str()));
            assert(texts(all@) =~= before.push("panel metrics"@) + listed.take(i + 1));
            i += 1;
        }
        assert(listed.take(i as int) =~= listed);
    }
    assert(texts(all@) =~= metric_texts(*plugins, usage@, hit_pct, rsi));
    titled_muted("Metrics", &all, width)
}

fn titled_muted(label: &str, body: &Vec<String>, width: u16) -> (r: Vec<Line>)
    ensures
        rows(r@) == titled(label@, muted_rows(texts(body@), width)),
{
    let mut lines: Vec<Line> = Vec::new();
    if body.len() == 0 {
        assert(rows(lines@) =~= titled(label@, muted_rows(texts(body@), width)));
        return lines;
    }
    lines.push(section(label));
    push_muted_rows(&mut lines, body, width);
    lines.push(blank_line());
    assert(rows(lines@) =~= titled(label@, muted_rows(texts(body@), width)));
    lines
}

/// The wrapped rows of a panel's text.
pub open spec fn wrapped_rows(text: Seq<char>, width: u16) -> Seq<Seq<(Seq<char>, Style)>> {
    wrapped(text, less(width, 2)).map_values(|w: Seq<char>| row1("  "@ + w, Style::in_tone(Tone::TextMuted)))
}

fn push_wrapped_rows(lines: &mut Vec<Line>, text: &str, width: u16)
    ensures
        rows(final(lines)@) == rows(old(lines)@) + wrapped_rows(text@, width),
{
    let parts = wrap_text_to_width(text, width.saturating_sub(2) as usize);
    let ghost before = rows(lines@);
    let ghost more = wrapped_rows(text@, width);
    let mut i: usize = 0;
    assert(before + more.take(0) =~= before);
    while i < parts.len()
        invariant
            i <= parts@.len(),
            texts(parts@) == wrapped(text@, less(width, 2)),
            more == wrapped_rows(text@, width),
            rows(lines@) == before + more.take(i as int),
        decreases parts@.len() - i,
    {
        assert(texts(parts@)[i as int] == parts@[i as int]@);
        lines.push(line1(cat2("  ", parts[i].as_str()), Style::fg(Tone::TextMuted)));
        assert(rows(lines@) =~= before + more.take(i + 1));
        i += 1;
    }
    assert(more.take(i as int) =~= more);
}

/// The rows of all texts, wrapped.
pub open spec fn all_wrapped_rows(body: Seq<Seq<char>>, width: u16) -> Seq<Seq<(Seq<char>, Style)>>
    decreases body.len(),
{
    if body.len() == 0 {
        Seq::empty()
    } else {
        all_wrapped_rows(body.drop_last(), width) + wrapped_rows(body.last(), width)
    }
}

/// The rows of the panels.
pub open spec fn panel_section_rows(panels: Seq<(Seq<char>, Seq<Seq<char>>)>, width: u16) -> Seq<
    Seq<(Seq<char>, Style)>,
>
    decreases panels.len(),
{
    if panels.len() == 0 {
        Seq::empty()
    } else {
        panel_section_rows(panels.drop_last(), width).push(
            row1(" "@ + shortened(panels.last().0, less(width, 1)), Style::in_tone(Tone::Accent)),
        ) + all_wrapped_rows(panels.last().1, width)
    }
}

fn push_panel(lines: &mut Vec<Line>, panel: &PluginPanelSection, width: u16)
    ensures
        rows(final(lines)@) == rows(old(lines)@).push(
            row1(" "@ + shortened(panel.title@, less(width, 1)), Style::in_tone(Tone::Accent)),
        ) + all_wrapped_rows(texts(panel.rows@), width),
{
    lines.push(
        line1(
            cat2(" ", truncate_str(panel.title.as_str(), width.saturating_sub(1) as usize).as_str()),
            Style::fg(Tone::Accent),
        ),
    );
    let ghost before = rows(lines@);
    let ghost body = texts(panel.rows@);
    let mut i: usize = 0;
    assert(before + all_wrapped_rows(body.take(0), width) =~= before);
    while i < panel.rows.len()
        invariant
            i <= panel.rows@.len(),
            body == texts(panel.rows@),
            rows(lines@) == before + all_wrapped_rows(body.take(i as int), width),
        decreases panel.rows@.len() - i,
    {
        assert(body.take(i + 1).drop_last() =~= body.take(i as int));
        push_wrapped_rows(lines, panel.rows[i].as_str(), width);
        assert(rows(lines@) =~= before + all_wrapped_rows(body.take(i + 1), width));
        i += 1;
    }
    assert(body.take(i as int) =~= body);
}

fn panel_lines(plugins: &PluginState, focused: &Option<FocusedUiItem>, width: u16, now: Instant) -> (r: Vec<Line>)
    ensures
        rows(r@) == titled(
            "Plugin panels"@,
            panel_section_rows(
                shown_panels(
                    plugins.ui_panel_descriptors@,
                    plugins.ui_panel_snapshots,
                    plugins.ui_panel_refresh_status,
                    UiMutationScope::InfoSidebar,
                    *focused,
                    now,
                ),
                width,
            ),
        ),
{
    let panels = info_sidebar_panel_sections(
        plugins.ui_panel_descriptors.as_slice(),
        &plugins.ui_panel_snapshots,
        &plugins.ui_panel_refresh_status,
        focused,
        now,
    );
    let ghost all = section_models(panels@);
    let mut lines: Vec<Line> = Vec::new();
    if panels.len() == 0 {
        assert(panel_section_rows(all, width).len() == 0);
        assert(rows(lines@) =~= titled("Plugin panels"@, panel_section_rows(all, width)));
        return lines;
    }
    lines.push(section("Plugin panels"));
    let ghost before = rows(lines@);
    let mut i: usize = 0;
    assert(before + panel_section_rows(all.take(0), width) =~= before);
    while i < panels.len()
        invariant
            i <= panels@.len(),
            all == section_models(panels@),
            rows(lines@) == before + panel_section_rows(all.take(i as int), width),
        decreases panels@.len() - i,
    {
        assert(all.take(i + 1).drop_last() =~= all.take(i as int));
        assert(all.take(i + 1).last() == section_model(panels@[i as int]));
        push_panel(&mut lines, &panels[i], width);
        assert(rows(lines@) =~= before + panel_section_rows(all.take(i + 1), width));
        i += 1;
    }
    assert(all.take(i as int) =~= all);
    lines.push(blank_line());
    assert(panel_section_rows(all, width).len() > 0);
    assert(rows(lines@) =~= titled("Plugin panels"@, panel_section_rows(all, width)));
    lines
}

fn widget_lines(plugins: &PluginState, focused: &Option<FocusedUiItem>, width: u16, now: Instant) -> (r: Vec<Line>)
    ensures
        rows(r@) == titled(
            "Plugin widgets"@,
            muted_rows(
                widget_rows(
                    plugins.ui_widget_descriptors@,
                    plugins.ui_widget_snapshots,
                    plugins.ui_widget_refresh_status,
                    UiMutationScope::InfoSidebar,
                    *focused,
                    now,
                ),
                width,
            ),
        ),
{
    let body = ui_widget_panel_rows(
        plugins.ui_widget_descriptors.as_slice(),
        &plugins.ui_widget_snapshots,
        &plugins.ui_widget_refresh_status,
        focused,
        now,
    );
    titled_muted("Plugin widgets", &body, width)
}

/// The colour of a detail row.
pub open spec fn detail_tone(tone: PluginDetailRowTone, health: PluginHealthSummary) -> Tone {
    match tone {
        PluginDetailRowTone::Health => if is_alert(health) {
            Tone::Error
        } else if is_warning(health) {
            Tone::Warning
        } else {
            Tone::Success
        },
        PluginDetailRowTone::Muted => Tone::TextMuted,
        PluginDetailRowTone::Error => Tone::Error,
        PluginDetailRowTone::Warning => Tone::Warning,
    }
}

/// The plugin details, as rows.
pub open spec fn plugin_detail_lines(
    details: Seq<(Seq<char>, PluginDetailRowTone)>,
    health: PluginHealthSummary,
    width: u16,
) -> Seq<Seq<(Seq<char>, Style)>> {
    details.map_values(
        |d: (Seq<char>, PluginDetailRowTone)| body_row(d.0, width, detail_tone(d.1, health)),
    )
}

fn plugin_lines(plugins: &PluginState, width: u16) -> (r: Vec<Line>)
    ensures
        rows(r@) == titled(
            "Plugins"@,
            plugin_detail_lines(
                plugin_details(plugins.health, plugins.reload_report, plugins.runtime_action_descriptors@),
                detail_health(plugins.health, plugins.reload_report),
                width,
            ),
        ),
{
    let details = plugin_health_detail_render_rows(
        &plugins.health,
        as_report(&plugins.reload_report),
        plugins.runtime_action_descriptors.as_slice(),
    );
    let health = plugin_detail_health(&plugins.health, as_report(&plugins.reload_report));
    let ghost body = plugin_detail_lines(detail_rows(details@), health, width);
    let mut lines: Vec<Line> = Vec::new();
    if details.len() == 0 {
        assert(rows(lines@) =~= titled("Plugins"@, body));
        return lines;
    }
    lines.push(section("Plugins"));
    let ghost before = rows(lines@);
    let mut i: usize = 0;
    assert(before + body.take(0) =~= before);
    while i < details.len()
        invariant
            i <= details@.len(),
            body == plugin_detail_lines(detail_rows(details@), health, width),
            rows(lines@) == before + body.take(i as int),
        decreases details@.len() - i,
    {
        let tone = match details[i].tone {
            PluginDetailRowTone::Health => if plugin_health_is_alert(&health) {
                Tone::Error
            } else if plugin_health_is_warning(&health) {
                Tone::Warning
            } else {
                Tone::Success
            },
            PluginDetailRowTone::Muted => Tone::TextMuted,
            PluginDetailRowTone::Error => Tone::Error,
            PluginDetailRowTone::Warning => Tone::Warning,
        };
        lines.push(body_line(details[i].text.as_str(), width, tone));
        assert(rows(lines@) =~= before + body.take(i + 1));
        i += 1;
    }
    assert(body.take(i as int) =~= body);
    lines.push(blank_line());
    assert(rows(lines@) =~= titled("Plugins"@, body));
    lines
}

// ── usage by model ──────────────────────────────────────────────────────

/// The use of one model. Money comes as text.
#[derive(Debug, Clone)]
pub struct ModelUseRow {
    pub model_name: String,
    pub input_tokens: u64,
    pub output_tokens: u64,
    pub cache_read_tokens: u64,
    pub cache_write_tokens: u64,
    /// The cache's share of the input in whole percent, where it is above zero.
    pub hit_pct: Option<u64>,
    /// What was spent, with two decimals, where the price is known.
    pub cost: Option<String>,
}

impl Ranked for ModelUseRow {
    open spec fn before(&self, other: &Self) -> bool {
        text_before(self.model_name@, other.model_name@)
    }

    fn is_before(&self, other: &Self) -> (r: bool) {
        text_is_before(self.model_name.as_str(), other.model_name.as_str())
    }
}

/// The rows of one model.
pub open spec fn model_use_rows(m: ModelUseRow, width: u16) -> Seq<Seq<(Seq<char>, Style)>> {
    let muted = Style::in_tone(Tone::TextMuted);
    let head = seq![
        row1(" "@ + shortened(m.model_name@, less(width, 2)) + ":"@, Style::in_tone(Tone::Accent)),
        row1(
            "  "@ + grouped(m.input_tokens as nat) + " in, "@ + grouped(m.output_tokens as nat) + " out"@,
            muted,
        ),
    ];
    let cached = m.cache_read_tokens > 0 || m.cache_write_tokens > 0;
    let cache = if cached {
        seq![
            row1(
                "  "@ + grouped(m.cache_read_tokens as nat) + " cache read, "@ + grouped(
                    m.cache_write_tokens as nat,
                ) + " write"@,
                muted,
            ),
        ]
    } else {
        Seq::empty()
    };
    let hit = match m.hit_pct {
        Some(pct) => if cached {
            seq![
                row2(
                    ("  cache hit: "@, muted),
                    (decimal(pct as nat) + "%"@, Style::in_tone(Tone::Success)),
                ),
            ]
        } else {
            Seq::empty()
        },
        None => Seq::empty(),
    };
    let cost = match m.cost {
        Some(c) => seq![row1("  $"@ + c@ + " spent"@, Style::in_tone(Tone::TextSecondary))],
        None => Seq::empty(),
    };
    head + cache + hit + cost
}

fn model_use_lines(m: &ModelUseRow, width: u16) -> (r: Vec<Line>)
    ensures
        rows(r@) == model_use_rows(*m, width),
{
    let mut lines: Vec<Line> = Vec::new();
    let muted = Style::fg(Tone::TextMuted);
    lines.push(
        line1(
            cat3(" ", truncate_str(m.model_name.as_str(), width.saturating_sub(2) as usize).as_str(), ":"),
            Style::fg(Tone::Accent),
        ),
    );
    let mut in_out = cat3("  ", fmt_number(m.input_tokens).as_str(), " in, ");
    in_out.push_str(fmt_number(m.output_tokens).as_str());
    in_out.push_str(" out");
    lines.push(line1(in_out, muted));
    if m.cache_read_tokens > 0 || m.cache_write_tokens > 0 {
        let mut cache = cat3("  ", fmt_number(m.cache_read_tokens).as_str(), " cache read, ");
        cache.push_str(fmt_number(m.cache_write_tokens).as_str());
        cache.push_str(" write");
        lines.push(line1(cache, muted));
        if let Some(pct) = m.hit_pct {
            lines.push(
                line2(
                    span("  cache hit: ".to_owned(), muted),
                    span(cat2(decimal_text(pct).as_str(), "%"), Style::fg(Tone::Success)),
                ),
            );
        }
    }
    if let Some(cost) = &m.cost {
        lines.push(line1(cat3("  $", cost.as_str(), " spent"), Style::fg(Tone::TextSecondary)));
    }
    assert(rows(lines@) =~= model_use_rows(*m, width));
    lines
}

/// The rows of all models.
pub open spec fn all_use_rows(models: Seq<ModelUseRow>, width: u16) -> Seq<Seq<(Seq<char>, Style)>>
    decreases models.len(),
{
    if models.len() == 0 {
        Seq::empty()
    } else {
        all_use_rows(models.drop_last(), width) + model_use_rows(models.last(), width)
    }
}

/// The usage section: the models by name, and what all of them cost.
pub open spec fn usage_rows(models: Seq<ModelUseRow>, total_cost: Option<String>, width: u16) -> Seq<
    Seq<(Seq<char>, Style)>,
> {
    if models.len() == 0 {
        Seq::empty()
    } else {
        let total = match total_cost {
            Some(t) => seq![row1("Total cost: "@ + t@, Style::in_tone(Tone::TextMuted))],
            None => Seq::empty(),
        };
        seq![heading("Usage by model"@)] + all_use_rows(sorted(models, rank_order::<ModelUseRow>()), width) + total
            + seq![blank_row()]
    }
}

fn usage_lines(models: Vec<ModelUseRow>, total_cost: &Option<String>, width: u16) -> (r: Vec<Line>)
    ensures
        rows(r@) == usage_rows(models@, *total_cost, width),
{
    let mut lines: Vec<Line> = Vec::new();
    if models.len() == 0 {
        assert(rows(lines@) =~= usage_rows(models@, *total_cost, width));
        return lines;
    }
    lines.push(section("Usage by model"));
    let ghost before = rows(lines@);
    let ordered = sort_stable(models);
    let mut i: usize = 0;
    assert(before + all_use_rows(ordered@.take(0), width) =~= before);
    while i < ordered.len()
        invariant
            i <= ordered@.len(),
            rows(lines@) == before + all_use_rows(ordered@.take(i as int), width),
        decreases ordered@.len() - i,
    {
        assert(ordered@.take(i + 1).drop_last() =~= ordered@.take(i as int));
        push_lines(&mut lines, model_use_lines(&ordered[i], width));
        assert(rows(lines@) =~= before + all_use_rows(ordered@.take(i + 1), width));
        i += 1;
    }
    assert(ordered@.take(i as int) =~= ordered@);
    if let Some(total) = total_cost {
        lines.push(line1(cat2("Total cost: ", total.as_str()), Style::fg(Tone::TextMuted)));
    }
    lines.push(blank_line());
    assert(rows(lines@) =~= usage_rows(models@, *total_cost, width));
    lines
}

// ── servers ─────────────────────────────────────────────────────────────

#[derive(Debug, Clone, Copy, PartialEq, Eq, Structural)]
pub enum LspStatus {
    Active,
    Inactive,
}

/// A language server.
#[derive(Debug, Clone)]
pub struct LspServer {
    pub name: String,
    pub status: LspStatus,
}

#[derive(Debug, Clone, Copy, PartialEq, Eq, Structural)]
pub enum McpStatus {
    Connected,
    Connecting,
    Disabled,
    Error,
}

/// A tool server.
#[derive(Debug, Clone)]
pub struct McpServer {
    pub name: String,
    pub status: McpStatus,
}

/// The colour of a tool server's state.
pub open spec fn mcp_tone(status: McpStatus) -> Tone {
    match status {
        McpStatus::Connected => Tone::Success,
        McpStatus::Connecting => Tone::Warning,
        McpStatus::Disabled => Tone::TextMuted,
        McpStatus::Error => Tone::Error,
    }
}

/// The colour of a tool server's state.
pub fn mcp_status_color(status: McpStatus) -> (r: Tone)
    ensures
        r == mcp_tone(status),
{
    match status {
        McpStatus::Connected => Tone::Success,
        McpStatus::Connecting => Tone::Warning,
        McpStatus::Disabled => Tone::TextMuted,
        McpStatus::Error => Tone::Error,
    }
}

/// A muted hint, wrapped.
pub open spec fn hint_rows(text: Seq<char>, width: u16) -> Seq<Seq<(Seq<char>, Style)>> {
    wrapped(text, width as nat).map_values(|w: Seq<char>| row1(w, Style::in_tone(Tone::TextMuted)))
}

fn push_hint(lines: &mut Vec<Line>, text: &str, width: u16)
    ensures
        rows(final(lines)@) == rows(old(lines)@) + hint_rows(text@, width),
{
    let parts = wrap_text_to_width(text, width as usize);
    let ghost before = rows(lines@);
    let ghost more = hint_rows(text@, width);
    let mut i: usize = 0;
    assert(before + more.take(0) =~= before);
    while i < parts.len()
        invariant
            i <= parts@.len(),
            texts(parts@) == wrapped(text@, width as nat),
            more == hint_rows(text@, width),
            rows(lines@) == before + more.take(i as int),
        decreases parts@.len() - i,
    {
        assert(texts(parts@)[i as int] == parts@[i as int]@);
        lines.push(line1(parts[i].clone(), Style::fg(Tone::TextMuted)));
        assert(rows(lines@) =~= before + more.take(i + 1));
        i += 1;
    }
    assert(more.take(i as int) =~= more);
}

/// The row of a language server.
pub open spec fn lsp_row(s: LspServer, width: u16) -> Seq<(Seq<char>, Style)> {
    let (tone, label) = match s.status {
        LspStatus::Active => (Tone::Success, "Active"@),
        LspStatus::Inactive => (Tone::TextMuted, "Inactive"@),
    };
    row4(
        ("• "@, Style::in_tone(tone)),
        (shortened(s.name@, less(width, 12)), Style::in_tone(Tone::Accent)),
        (" "@, Style::plain_style()),
        (label, Style::in_tone(tone)),
    )
}

/// The language servers.
pub open spec fn lsp_rows(servers: Seq<LspServer>, width: u16) -> Seq<Seq<(Seq<char>, Style)>> {
    let body = if servers.len() == 0 {
        hint_rows("LSPs will activate as files are read"@, width)
    } else {
        servers.map_values(|s: LspServer| lsp_row(s, width))
    };
    seq![heading("LSP"@)] + body + seq![blank_row()]
}

fn lsp_lines(servers: &Vec<LspServer>, width: u16) -> (r: Vec<Line>)
    ensures
        rows(r@) == lsp_rows(servers@, width),
{
    let mut lines: Vec<Line> = Vec::new();
    lines.push(section("LSP"));
    let ghost before = rows(lines@);
    if servers.len() == 0 {
        push_hint(&mut lines, "LSPs will activate as files are read", width);
    } else {
        let ghost more = servers@.map_values(|s: LspServer| lsp_row(s, width));
        let mut i: usize = 0;
        assert(before + more.take(0) =~= before);
        while i < servers.len()
            invariant
                i <= servers@.len(),
                more == servers@.map_values(|s: LspServer| lsp_row(s, width)),
                rows(lines@) == before + more.take(i as int),
            decreases servers@.len() - i,
        {
            let (tone, label) = match servers[i].status {
                LspStatus::Active => (Tone::Success, "Active"),
                LspStatus::Inactive => (Tone::TextMuted, "Inactive"),
            };
            lines.push(
                line4(
                    span("• ".to_owned(), Style::fg(tone)),
                    span(
                        truncate_str(servers[i].name.as_str(), width.saturating_sub(12) as usize),
                        Style::fg(Tone::Accent),
                    ),
                    span(" ".to_owned(), Style::plain()),
                    span(label.to_owned(), Style::fg(tone)),
                ),
            );
            assert(rows(lines@) =~= before + more.take(i + 1));
            i += 1;
        }
        assert(more.take(i as int) =~= more);
    }
    lines.push(blank_line());
    assert(rows(lines@) =~= lsp_rows(servers@, width));
    lines
}

/// The row of a tool server.
pub open spec fn mcp_row(s: McpServer, width: u16) -> Seq<(Seq<char>, Style)> {
    row2(
        ("● "@, Style::in_tone(mcp_tone(s.status))),
        (shortened(s.name@, less(width, 2)), Style::in_tone(Tone::TextSecondary)),
    )
}

/// The tool servers.
pub open spec fn mcp_rows(servers: Seq<McpServer>, width: u16) -> Seq<Seq<(Seq<char>, Style)>> {
    let body = if servers.len() == 0 {
        hint_rows("No MCP servers configured"@, width)
    } else {
        servers.map_values(|s: McpServer| mcp_row(s, width))
    };
    seq![heading("MCP"@)] + body + seq![blank_row()]
}

fn mcp_lines(servers: &Vec<McpServer>, width: u16) -> (r: Vec<Line>)
    ensures
        rows(r@) == mcp_rows(servers@, width),
{
    let mut lines: Vec<Line> = Vec::new();
    lines.push(section("MCP"));
    let ghost before = rows(lines@);
    if servers.len() == 0 {
        push_hint(&mut lines, "No MCP servers configured", width);
    } else {
        let ghost more = servers@.map_values(|s: McpServer| mcp_row(s, width));
        let mut i: usize = 0;
        assert(before + more.take(0) =~= before);
        while i < servers.len()
            invariant
                i <= servers@.len(),
                more == servers@.map_values(|s: McpServer| mcp_row(s, width)),
                rows(lines@) == before + more.take(i as int),
            decreases servers@.len() - i,
        {
            lines.push(
                line2(
                    span("● ".to_owned(), Style::fg(mcp_status_color(servers[i].status))),
                    span(
                        truncate_str(servers[i].name.as_str(), width.saturating_sub(2) as usize),
                        Style::fg(Tone::TextSecondary),
                    ),
                ),
            );
            assert(rows(lines@) =~= before + more.take(i + 1));
            i += 1;
        }
        assert(more.take(i as int) =~= more);
    }
    lines.push(blank_line());
    assert(rows(lines@) =~= mcp_rows(servers@, width));
    lines
}

// ── team ────────────────────────────────────────────────────────────────

/// A member of the team, as the sidebar lists it.
#[derive(Debug, Clone)]
pub struct TeamMember {
    pub name: String,
    pub color: Option<String>,
}

/// The team: there is one while it has a name.
#[derive(Debug, Clone)]
pub struct TeamView {
    pub active: bool,
    pub team_name: Option<String>,
    pub teammates: Vec<TeamMember>,
}

/// The rows of the members; the leader is not listed.
pub open spec fn member_rows(members: Seq<TeamMember>) -> Seq<Seq<(Seq<char>, Style)>>
    decreases members.len(),
{
    if members.len() == 0 {
        Seq::empty()
    } else {
        let m = members.last();
        let before = member_rows(members.drop_last());
        if m.name@ == TEAM_LEAD_NAME@ {
            before
        } else {
            before.push(
                row2(
                    ("  ● "@, Style::in_tone(Tone::Team(team_color(crate::slicing::opt_text(m.color))))),
                    (m.name@, Style::in_tone(Tone::TextSecondary)),
                ),
            )
        }
    }
}

/// The team section.
pub open spec fn team_rows(team: TeamView) -> Seq<Seq<(Seq<char>, Style)>> {
    if !team.active {
        Seq::empty()
    } else {
        let name = match team.team_name {
            Some(n) => seq![row1("  "@ + n@, Style::in_tone(Tone::TextSecondary))],
            None => Seq::empty(),
        };
        let nobody = if team.teammates@.len() <= 1 {
            seq![row1("  (no teammates)"@, Style::in_tone(Tone::TextSecondary))]
        } else {
            Seq::empty()
        };
        seq![heading("Team"@)] + name + member_rows(team.teammates@) + nobody
    }
}

fn team_lines(team: &TeamView) -> (r: Vec<Line>)
    ensures
        rows(r@) == team_rows(*team),
{
    let mut lines: Vec<Line> = Vec::new();
    if !team.active {
        assert(rows(lines@) =~= team_rows(*team));
        return lines;
    }
    lines.push(section("Team"));
    if let Some(name) = &team.team_name {
        lines.push(line1(cat2("  ", name.as_str()), Style::fg(Tone::TextSecondary)));
    }
    let ghost before = rows(lines@);
    let mut i: usize = 0;
    assert(before + member_rows(team.teammates@.take(0)) =~= before);
    while i < team.teammates.len()
        invariant
            i <= team.teammates@.len(),
            rows(lines@) == before + member_rows(team.teammates@.take(i as int)),
        decreases team.teammates@.len() - i,
    {
        assert(team.teammates@.take(i + 1).drop_last() =~= team.teammates@.take(i as int));
        let m = &team.teammates[i];
        if !same_text(m.name.as_str(), TEAM_LEAD_NAME) {
            lines.push(
                line2(
                    span("  ● ".to_owned(), Style::fg(Tone::Team(teammate_color(&m.color)))),
                    span(m.name.clone(), Style::fg(Tone::TextSecondary)),
                ),
            );
        }
        assert(rows(lines@) =~= before + member_rows(team.teammates@.take(i + 1)));
        i += 1;
    }
    assert(team.teammates@.take(i as int) =~= team.teammates@);
    if team.teammates.len() <= 1 {
        lines.push(line1("  (no teammates)".to_owned(), Style::fg(Tone::TextSecondary)));
    }
    assert(rows(lines@) =~= team_rows(*team));
    lines
}

// ── changes ─────────────────────────────────────────────────────────────

/// What the session changed.
#[derive(Debug, Clone)]
pub struct DiffStats {
    pub total_files: usize,
    pub additions: usize,
    pub deletions: usize,
    pub files: Vec<String>,
}

/// The row of a changed file.
pub open spec fn file_row(file: Seq<char>, width: u16) -> Seq<(Seq<char>, Style)> {
    row2(
        ("  "@, Style::plain_style()),
        (shortened(file, less(width, 4)), Style::in_tone(Tone::Accent)),
    )
}

/// The rows of the first three files.
pub open spec fn file_rows(files: Seq<Seq<char>>, width: u16) -> Seq<Seq<(Seq<char>, Style)>> {
    files.take(least(3, files.len()) as int).map_values(|f: Seq<char>| file_row(f, width))
}

/// The row that counts the changes.
pub open spec fn change_counts(d: DiffStats) -> Seq<(Seq<char>, Style)> {
    seq![
        (decimal(d.total_files as nat) + " file(s)"@, Style::in_tone(Tone::TextSecondary)),
        (" "@, Style::plain_style()),
        ("+"@ + decimal(d.additions as nat), Style::in_tone(Tone::Success)),
        (" "@, Style::plain_style()),
        ("-"@ + decimal(d.deletions as nat), Style::in_tone(Tone::Error)),
    ]
}

/// The changes section.
pub open spec fn change_rows(d: DiffStats, width: u16) -> Seq<Seq<(Seq<char>, Style)>> {
    if d.total_files == 0 {
        Seq::empty()
    } else {
        let more = if d.files@.len() > 3 {
            seq![
                row1(
                    "  … +"@ + decimal((d.files@.len() - 3) as nat) + " more"@,
                    Style::in_tone(Tone::TextMuted),
                ),
            ]
        } else {
            Seq::empty()
        };
        seq![heading("Changes"@), change_counts(d)] + file_rows(texts(d.files@), width) + more + seq![blank_row()]
    }
}

fn change_lines(d: &DiffStats, width: u16) -> (r: Vec<Line>)
    ensures
        rows(r@) == change_rows(*d, width),
{
    let mut lines: Vec<Line> = Vec::new();
    if d.total_files == 0 {
        assert(rows(lines@) =~= change_rows(*d, width));
        return lines;
    }
    lines.push(section("Changes"));
    let mut spans: Vec<Span> = Vec::new();
    spans.push(span(cat2(count_text(d.total_files).as_str(), " file(s)"), Style::fg(Tone::TextSecondary)));
    spans.push(span(" ".to_owned(), Style::plain()));
    spans.push(span(cat2("+", count_text(d.additions).as_str()), Style::fg(Tone::Success)));
    spans.push(span(" ".to_owned(), Style::plain()));
    spans.push(span(cat2("-", count_text(d.deletions).as_str()), Style::fg(Tone::Error)));
    let counts = Line { spans };
    assert(counts@ =~= change_counts(*d));
    lines.push(counts);
    let ghost before = rows(lines@);
    let ghost listed = file_rows(texts(d.files@), width);
    let shown: usize = if d.files.len() < 3 {
        d.files.len()
    } else {
        3
    };
    let mut i: usize = 0;
    assert(before + listed.take(0) =~= before);
    while i < shown
        invariant
            i <= shown <= d.files@.len(),
            shown == least(3, d.files@.len()),
            listed == file_rows(texts(d.files@), width),
            rows(lines@) == before + listed.take(i as int),
        decreases shown - i,
    {
        lines.push(
            line2(
                span("  ".to_owned(), Style::plain()),
                span(
                    truncate_str(d.files[i].as_str(), width.saturating_sub(4) as usize),
                    Style::fg(Tone::Accent),
                ),
            ),
        );
        assert(rows(lines@) =~= before + listed.take(i + 1));
        i += 1;
    }
    assert(listed.take(i as int) =~= listed);
    if d.files.len() > 3 {
        lines.push(
            line1(
                cat3("  … +", count_text(d.files.len() - 3).as_str(), " more"),
                Style::fg(Tone::TextMuted),
            ),
        );
    }
    lines.push(blank_line());
    assert(rows(lines@) =~= change_rows(*d, width));
    lines
}

// ── the whole sidebar ───────────────────────────────────────────────────

/// Everything that the sidebar shows.
pub struct SidebarState {
    pub current_session_id: Option<String>,
    pub session_meta: Vec<SessionMeta>,
    pub gauge: ContextGauge,
    pub messages: Vec<Vec<PartSize>>,
    pub budget: Option<ContextBudget>,
    pub last_system_prompt_len: Option<usize>,
    /// The rounded columns of each share of the context.
    pub share_cells: Vec<usize>,
    /// Tokens per turn, as levels from 0 to 7.
    pub turn_levels: Vec<u8>,
    pub plugins: PluginState,
    pub usage: Vec<(String, ModelUsage)>,
    pub cache_hit_pct: Option<u64>,
    pub rsi: Option<RsiCounts>,
    pub model_rows: Vec<ModelUseRow>,
    pub total_cost: Option<String>,
    pub lsp_servers: Vec<LspServer>,
    pub mcp_servers: Vec<McpServer>,
    pub team: TeamView,
    pub diff: DiffStats,
    pub focused_panel: Option<FocusedUiItem>,
    pub focused_widget: Option<FocusedUiItem>,
}

/// The shares of the context.
pub open spec fn state_shares(s: SidebarState) -> Seq<ContextShare> {
    context_shares(breakdown_of(s.messages@), s.budget, s.last_system_prompt_len)
}

/// The rows from the session to the tokens per turn.
pub open spec fn upper_rows(s: SidebarState, width: u16) -> Seq<Seq<(Seq<char>, Style)>> {
    session_rows(s.current_session_id, s.session_meta@, width) + context_rows(
        s.gauge,
        state_shares(s),
        s.share_cells@,
        width,
    ) + spark_rows(s.turn_levels@, width) + seq![blank_row()]
}

/// The rows from the metrics to the servers.
pub open spec fn middle_rows(s: SidebarState, width: u16, now: Instant) -> Seq<Seq<(Seq<char>, Style)>> {
    titled("Metrics"@, muted_rows(metric_texts(s.plugins, s.usage@, s.cache_hit_pct, s.rsi), width)) + titled(
        "Plugin panels"@,
        panel_section_rows(
            shown_panels(
                s.plugins.ui_panel_descriptors@,
                s.plugins.ui_panel_snapshots,
                s.plugins.ui_panel_refresh_status,
                UiMutationScope::InfoSidebar,
                s.focused_panel,
                now,
            ),
            width,
        ),
    ) + titled(
        "Plugin widgets"@,
        muted_rows(
            widget_rows(
                s.plugins.ui_widget_descriptors@,
                s.plugins.ui_widget_snapshots,
                s.plugins.ui_widget_refresh_status,
                UiMutationScope::InfoSidebar,
                s.focused_widget,
                now,
            ),
            width,
        ),
    ) + usage_rows(s.model_rows@, s.total_cost, width) + lsp_rows(s.lsp_servers@, width) + mcp_rows(
        s.mcp_servers@,
        width,
    )
}

/// The rows from the plugins to the changes.
pub open spec fn lower_rows(s: SidebarState, width: u16) -> Seq<Seq<(Seq<char>, Style)>> {
    titled(
        "Plugins"@,
        plugin_detail_lines(
            plugin_details(s.plugins.health, s.plugins.reload_report, s.plugins.runtime_action_descriptors@),
            detail_health(s.plugins.health, s.plugins.reload_report),
            width,
        ),
    ) + team_rows(s.team) + change_rows(s.diff, width)
}

/// The sidebar.
pub open spec fn sidebar_rows(s: SidebarState, width: u16, now: Instant) -> Seq<Seq<(Seq<char>, Style)>> {
    upper_rows(s, width) + middle_rows(s, width, now) + lower_rows(s, width)
}

/// The rows of the info sidebar, `width` columns wide.
pub fn info_sidebar(s: SidebarState, width: u16, now: Instant) -> (r: Vec<Line>)
    requires
        cache_read_total(s.usage@) <= u64::MAX,
        input_total(s.usage@) <= u64::MAX,
        share_sum(state_shares(s)) <= u64::MAX,
    ensures
        rows(r@) == sidebar_rows(s, width, now),
{
    let mut lines = session_lines(&s.current_session_id, &s.session_meta, width);
    let shares = context_breakdown_rows(&s.messages, s.budget, s.last_system_prompt_len);
    push_lines(&mut lines, context_lines(s.gauge, &shares, &s.share_cells, width));
    push_lines(&mut lines, spark_lines(&s.turn_levels, width));
    lines.push(blank_line());
    assert(rows(lines@) =~= upper_rows(s, width));
    let mut middle = metric_lines(&s.plugins, &s.usage, s.cache_hit_pct, s.rsi, width);
    push_lines(&mut middle, panel_lines(&s.plugins, &s.focused_panel, width, now));
    push_lines(&mut middle, widget_lines(&s.plugins, &s.focused_widget, width, now));
    push_lines(&mut middle, usage_lines(s.model_rows, &s.total_cost, width));
    push_lines(&mut middle, lsp_lines(&s.lsp_servers, width));
    push_lines(&mut middle, mcp_lines(&s.mcp_servers, width));
    let mut lower = plugin_lines(&s.plugins, width);
    push_lines(&mut lower, team_lines(&s.team));
    push_lines(&mut lower, change_lines(&s.diff, width));
    push_lines(&mut lines, middle);
    push_lines(&mut lines, lower);
    lines
}

/// How far the sidebar is scrolled: never so far that its last rows leave the
/// screen. Row counts wrap at sixteen bits.
pub open spec fn scrolled(row_count: nat, height: u16, scroll: u16) -> nat {
    let total = row_count % 65536;
    let shown: nat = if height >= 1 {
        height as nat
    } else {
        1
    };
    least(scroll as nat, minus(total, shown))
}

/// How far the sidebar is scrolled.
pub fn clamp_scroll(row_count: usize, height: u16, scroll: u16) -> (r: u16)
    ensures
        r == scrolled(row_count as nat, height, scroll),
{
    let total: u16 = (row_count % 65536) as u16;
    let shown: u16 = if height >= 1 {
        height
    } else {
        1
    };
    let max_scroll: u16 = total.saturating_sub(shown);
    if scroll > max_scroll {
        max_scroll
    } else {
        scroll
    }
}

// ── laws of the breakdown ───────────────────────────────────────────────

/// The tokens of all lengths that parts carry.
pub open spec fn tokens_carried(parts: Seq<PartSize>) -> nat
    decreases parts.len(),
{
    if parts.len() == 0 {
        0
    } else {
        tokens_carried(parts.drop_last()) + match parts.last() {
            PartSize::Tool { input_len, output_len } => tokens_of(input_len) as nat + tokens_of(output_len) as nat,
            PartSize::Other(len) => tokens_of(len) as nat,
            PartSize::CompactBoundary => 0nat,
            PartSize::ReasoningSignature => 0nat,
        }
    }
}

/// The tokens of all lengths that messages carry.
pub open spec fn tokens_in_all(messages: Seq<Vec<PartSize>>) -> nat
    decreases messages.len(),
{
    if messages.len() == 0 {
        0
    } else {
        tokens_in_all(messages.drop_last()) + tokens_carried(messages.last()@)
    }
}

/// The tokens that tool calls carry, in and out.
pub open spec fn tool_tokens_in(parts: Seq<PartSize>) -> nat
    decreases parts.len(),
{
    if parts.len() == 0 {
        0
    } else {
        tool_tokens_in(parts.drop_last()) + match parts.last() {
            PartSize::Tool { input_len, output_len } => tokens_of(input_len) as nat + tokens_of(output_len) as nat,
            _ => 0nat,
        }
    }
}

/// The tokens that all tool calls carry, in and out.
pub open spec fn tool_tokens_in_all(messages: Seq<Vec<PartSize>>) -> nat
    decreases messages.len(),
{
    if messages.len() == 0 {
        0
    } else {
        tool_tokens_in_all(messages.drop_last()) + tool_tokens_in(messages.last()@)
    }
}

/// The tokens of a breakdown.
pub open spec fn tokens_counted(b: TranscriptBreakdown) -> nat {
    b.conversation_tokens as nat + b.tool_call_tokens as nat + b.compartment_tokens as nat
}

proof fn lemma_parts_counted(b: TranscriptBreakdown, parts: Seq<PartSize>, compartment: bool)
    requires
        tokens_counted(b) + tokens_carried(parts) <= u64::MAX,
    ensures
        ({
            let r = with_parts_counted(b, parts, compartment);
            &&& tokens_counted(r) == tokens_counted(b) + tokens_carried(parts)
            &&& r.tool_call_tokens == b.tool_call_tokens + tool_tokens_in(parts)
            &&& compartment ==> r.conversation_tokens == b.conversation_tokens
            &&& !compartment ==> r.compartment_tokens == b.compartment_tokens
        }),
    decreases parts.len(),
{
    if parts.len() > 0 {
        lemma_parts_counted(b, parts.drop_last(), compartment);
    }
}

/// Every length that a part carries is counted in exactly one share: together the
/// shares are the tokens of all lengths, the share of the tool calls is what tools
/// were given and what they returned, and summaries of compacted turns stand apart
/// from the conversation.
pub proof fn law_every_length_is_counted_once(messages: Seq<Vec<PartSize>>)
    requires
        tokens_in_all(messages) <= u64::MAX,
    ensures
        tokens_counted(breakdown_of(messages)) == tokens_in_all(messages),
        breakdown_of(messages).tool_call_tokens == tool_tokens_in_all(messages),
        (forall|i: int, k: int|
            0 <= i < messages.len() && 0 <= k < messages[i]@.len() ==> #[trigger] messages[i]@[k]
                != PartSize::CompactBoundary) ==> breakdown_of(messages).compartment_tokens == 0,
        (forall|i: int| 0 <= i < messages.len() ==> (#[trigger] messages[i])@.contains(PartSize::CompactBoundary))
            ==> breakdown_of(messages).conversation_tokens == 0,
    decreases messages.len(),
{
    if messages.len() > 0 {
        let front = messages.drop_last();
        let parts = messages.last()@;
        law_every_length_is_counted_once(front);
        lemma_parts_counted(breakdown_of(front), parts, is_compartment(parts));
        assert(messages.last() == messages[messages.len() - 1]);
        if forall|i: int, k: int|
            0 <= i < messages.len() && 0 <= k < messages[i]@.len() ==> #[trigger] messages[i]@[k]
                != PartSize::CompactBoundary {
            assert forall|i: int, k: int| 0 <= i < front.len() && 0 <= k < front[i]@.len() implies #[trigger] front[i]@[k]
                != PartSize::CompactBoundary by {
                assert(front[i]@[k] == messages[i]@[k]);
            }
            assert(!is_compartment(parts)) by {
                if is_compartment(parts) {
                    let k = choose|k: int| 0 <= k < parts.len() && (#[trigger] parts[k]) == PartSize::CompactBoundary;
                    assert(messages[messages.len() - 1]@[k] == PartSize::CompactBoundary);
                }
            }
        }
        if forall|i: int| 0 <= i < messages.len() ==> (#[trigger] messages[i])@.contains(PartSize::CompactBoundary) {
            assert forall|i: int| 0 <= i < front.len() implies (#[trigger] front[i])@.contains(
                PartSize::CompactBoundary,
            ) by {
                assert(front[i] == messages[i]);
            }
            assert(messages[messages.len() - 1]@.contains(PartSize::CompactBoundary));
            let k = choose|k: int| 0 <= k < parts.len() && parts[k] == PartSize::CompactBoundary;
            assert(is_compartment(parts));
        }
    }
}

/// A token is about four bytes: nothing is no token, and four bytes more are one
/// token more.
pub proof fn law_four_bytes_are_a_token(n: usize)
    ensures
        tokens_of(0) == 0,
        tokens_of(1) == 1,
        n <= usize::MAX - 8 ==> tokens_of((n + 4) as usize) == tokens_of(n) + 1,
        n <= usize::MAX - 8 ==> tokens_of(n) <= tokens_of((n + 1) as usize) <= tokens_of(n) + 1,
{
}

/// The more a tool is given or returns, the larger the share of the tool calls, and
/// nothing else changes: four bytes more are one token more.
pub proof fn law_longer_outputs_weigh_more(b: TranscriptBreakdown, input_len: usize, output_len: usize, compartment: bool)
    requires
        input_len <= usize::MAX - 8,
        output_len <= usize::MAX - 8,
        b.tool_call_tokens + tokens_of(input_len) + tokens_of(output_len) + 1 <= u64::MAX,
    ensures
        ({
            let r = with_part_counted(b, PartSize::Tool { input_len, output_len }, compartment);
            let out = with_part_counted(
                b,
                PartSize::Tool { input_len, output_len: (output_len + 4) as usize },
                compartment,
            );
            let given = with_part_counted(
                b,
                PartSize::Tool { input_len: (input_len + 4) as usize, output_len },
                compartment,
            );
            &&& out.tool_call_tokens == r.tool_call_tokens + 1
            &&& given.tool_call_tokens == r.tool_call_tokens + 1
            &&& r.conversation_tokens == b.conversation_tokens == out.conversation_tokens
            &&& r.compartment_tokens == b.compartment_tokens == out.compartment_tokens
        }),
{
    law_four_bytes_are_a_token(input_len);
    law_four_bytes_are_a_token(output_len);
}

/// The rows of the breakdown account for the whole request: with a budget that
/// covers the transcript they sum up to what the budget says, and without one to
/// the transcript and the system prompt.
pub proof fn law_shares_account_for_the_request(
    b: TranscriptBreakdown,
    budget: Option<ContextBudget>,
    last_system_prompt_len: Option<usize>,
)
    requires
        tokens_counted(b) <= u64::MAX,
    ensures
        ({
            let shares = context_shares(b, budget, last_system_prompt_len);
            &&& budget matches Some(g) ==> g.user_message_tokens >= tokens_counted(b) ==> share_sum(shares)
                == g.system_prompt_tokens + g.project_instructions_tokens + g.memory_tokens + g.tool_definition_tokens
                + g.user_message_tokens
            &&& budget matches Some(g) ==> g.user_message_tokens < tokens_counted(b) ==> share_sum(shares)
                == g.system_prompt_tokens + g.project_instructions_tokens + g.memory_tokens + g.tool_definition_tokens
                + tokens_counted(b)
            &&& budget is None ==> share_sum(shares) == tokens_counted(b) + (match last_system_prompt_len {
                Some(n) => n as int,
                None => 0,
            })
        }),
{
    let shares = context_shares(b, budget, last_system_prompt_len);
    reveal_with_fuel(share_sum, 8);
    assert(shares.drop_last().len() == 6);
}

/// Each row of the breakdown shows what its label says.
pub proof fn law_shares_stand_under_their_labels(
    b: TranscriptBreakdown,
    budget: Option<ContextBudget>,
    last_system_prompt_len: Option<usize>,
    i: int,
)
    requires
        0 <= i < 7,
        tokens_counted(b) <= u64::MAX,
    ensures
        context_shares(b, budget, last_system_prompt_len).len() == 7,
        ({
            let tokens = context_shares(b, budget, last_system_prompt_len)[i].tokens;
            &&& share_label(i) == "Tool Calls"@ ==> tokens == b.tool_call_tokens
            &&& share_label(i) == "Compartments"@ ==> tokens == b.compartment_tokens
            &&& share_label(i) == "Conversation"@ ==> tokens >= b.conversation_tokens
            &&& share_label(i) == "System"@ && budget is Some ==> tokens == budget->0.system_prompt_tokens
            &&& share_label(i) == "Docs"@ && budget is Some ==> tokens == budget->0.project_instructions_tokens
            &&& share_label(i) == "Memories"@ && budget is Some ==> tokens == budget->0.memory_tokens
            &&& share_label(i) == "Tool Defs"@ && budget is Some ==> tokens == budget->0.tool_definition_tokens
        }),
{
    reveal_strlit("System");
    reveal_strlit("Docs");
    reveal_strlit("Compartments");
    reveal_strlit("Memories");
    reveal_strlit("Conversation");
    reveal_strlit("Tool Calls");
    reveal_strlit("Tool Defs");
    assert("System"@.len() == 6);
    assert("Docs"@.len() == 4);
    assert("Compartments"@[2] == 'm');
    assert("Conversation"@[2] == 'n');
    assert("Memories"@.len() == 8);
    assert("Tool Calls"@.len() == 10);
    assert("Tool Defs"@.len() == 9);
}

/// The first three changed files have a row each, in their order.
pub proof fn law_first_files_have_their_rows(files: Seq<Seq<char>>, width: u16, i: int)
    ensures
        files.len() <= 3 ==> file_rows(files, width).len() == files.len(),
        files.len() > 3 ==> file_rows(files, width).len() == 3,
        0 <= i < files.len() && i < 3 ==> file_rows(files, width)[i] == file_row(files[i], width),
{
}

/// Higher levels have higher bars.
pub proof fn law_higher_levels_have_higher_bars(a: u8, b: u8)
    requires
        a < b <= 7,
    ensures
        (level_bar(a) as int) < (level_bar(b) as int),
{
}

} // verus!
