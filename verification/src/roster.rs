//! The roster of background agents: one row format and one detail body for
//! every place that shows an agent.
//!
//! ```text
//! ▶ ● description  ⚠ stalled 31s        tool · model · 3 shells · 42s · ↓1.2k
//! ```
use vstd::prelude::*;

use crate::background::{tokens_used, BackgroundTask};
use crate::fitting::{cell_width, cut_to_cells, text_columns, truncate_cells};
use crate::pinned::{less, Row};
use crate::showing::{lemma_has_in_sum, lemma_has_itself, lemma_has_trans, lemma_joined_has, lemma_row_has, row_text};
use crate::slicing::{after_prefix, group_texts, has_text, join, joined, opt_text, repeat, repeated, strip_prefix, texts};
use crate::spinner::{elapsed_text, fmt_elapsed};
use crate::styled::{group_rows, span, Line, Span, Style, Tone};
use crate::tenths::{one_decimal, push_one_decimal};
use crate::text::{cat2, cat3, cat4, decimal, decimal_text, same_text};
use crate::time::{Duration, Instant};
use crate::transcript::TaskLifecycle;

verus! {

broadcast use {group_texts, group_rows};

// ── order ───────────────────────────────────────────────────────────────

/// The agent whose stream is live right now.
pub open spec fn is_live(bt: BackgroundTask, last_active: Option<Seq<char>>) -> bool {
    bt.status != TaskLifecycle::Idle && !bt.status.ended() && last_active == Some(bt.task_id@)
}

/// Whether `bt` is the agent whose stream is live right now.
pub fn roster_is_active(bt: &BackgroundTask, last_active: &Option<String>) -> (r: bool)
    ensures
        r == is_live(*bt, opt_text(*last_active)),
{
    let ours = match last_active {
        Some(id) => same_text(id.as_str(), bt.task_id.as_str()),
        None => false,
    };
    bt.status != TaskLifecycle::Idle && !bt.status.is_terminal() && ours
}

/// How long a failure counts as fresh, in seconds.
pub const FRESH_FAILURE_SECS: u64 = 300;

/// The rank of an agent: live work first, then fresh failures, idle ones,
/// completed ones, cancelled ones and old failures.
pub open spec fn rank_of(status: TaskLifecycle, live: bool, fresh: bool) -> u8 {
    if live {
        0
    } else {
        match status {
            TaskLifecycle::Running | TaskLifecycle::Pending => 1,
            TaskLifecycle::Failed => if fresh {
                2
            } else {
                6
            },
            TaskLifecycle::Idle => 3,
            TaskLifecycle::Completed => 4,
            TaskLifecycle::Cancelled => 5,
        }
    }
}

/// The rank of an agent. A lower one stands higher on the screen.
pub fn fleet_rank(status: TaskLifecycle, is_active: bool, failed_is_fresh: bool) -> (r: u8)
    ensures
        r == rank_of(status, is_active, failed_is_fresh),
{
    if is_active {
        return 0;
    }
    match status {
        TaskLifecycle::Running | TaskLifecycle::Pending => 1,
        TaskLifecycle::Failed => if failed_is_fresh {
            2
        } else {
            6
        },
        TaskLifecycle::Idle => 3,
        TaskLifecycle::Completed => 4,
        TaskLifecycle::Cancelled => 5,
    }
}

/// When the agent ended, or began where it has not.
pub open spec fn finished_at(bt: BackgroundTask) -> Instant {
    match bt.completed_at {
        Some(at) => at,
        None => bt.started_at,
    }
}

/// It ended a moment ago.
pub open spec fn ended_lately(bt: BackgroundTask, now: Instant) -> bool {
    now.since(finished_at(bt)) < FRESH_FAILURE_SECS * 1_000_000_000
}

/// Whether the agent ended within the last five minutes.
pub fn failed_is_fresh(bt: &BackgroundTask, now: Instant) -> (r: bool)
    ensures
        r == ended_lately(*bt, now),
{
    let at = match bt.completed_at {
        Some(at) => at,
        None => bt.started_at,
    };
    now.duration_since(at).is_shorter_than(&Duration::from_secs(FRESH_FAILURE_SECS))
}

/// The rank of an agent in the fleet.
pub open spec fn rank_in_fleet(bt: BackgroundTask, last_active: Option<Seq<char>>, now: Instant) -> u8 {
    rank_of(bt.status, is_live(bt, last_active), ended_lately(bt, now))
}

/// The rank of an agent in the fleet.
pub fn fleet_rank_of(bt: &BackgroundTask, last_active: &Option<String>, now: Instant) -> (r: u8)
    ensures
        r == rank_in_fleet(*bt, opt_text(*last_active), now),
{
    fleet_rank(bt.status, roster_is_active(bt, last_active), failed_is_fresh(bt, now))
}

/// The agent that the user waits for comes first; a running agent comes before
/// any that has ended; and an old failure comes last.
pub proof fn law_live_work_comes_first(a: TaskLifecycle, b: TaskLifecycle, live: bool, fresh: bool, other: bool)
    ensures
        rank_of(a, true, fresh) <= rank_of(b, live, other),
        !a.ended() && a != TaskLifecycle::Idle && b.ended() ==> rank_of(a, live, fresh) < rank_of(
            b,
            false,
            other,
        ),
        rank_of(b, live, other) <= rank_of(TaskLifecycle::Failed, false, false),
{
}

// ── names ───────────────────────────────────────────────────────────────

/// `234`, `1.4k`, `15.2k`, `2.0M`.
pub open spec fn token_count_text(n: nat) -> Seq<char> {
    if n < 1_000 {
        decimal(n)
    } else if n < 1_000_000 {
        one_decimal(n, 1_000) + "k"@
    } else {
        one_decimal(n, 1_000_000) + "M"@
    }
}

/// A token count with one decimal for k and M.
pub fn format_token_count(n: u64) -> (r: String)
    ensures
        r@ == token_count_text(n as nat),
{
    if n < 1_000 {
        decimal_text(n)
    } else if n < 1_000_000 {
        let mut out = String::new();
        push_one_decimal(&mut out, n, 1_000);
        out.push_str("k");
        assert(out@ =~= token_count_text(n as nat));
        out
    } else {
        let mut out = String::new();
        push_one_decimal(&mut out, n, 1_000_000);
        out.push_str("M");
        assert(out@ =~= token_count_text(n as nat));
        out
    }
}

/// The model's id without the provider in front of it.
pub open spec fn bare_model(raw: Seq<char>) -> Seq<char> {
    match after_prefix(raw, "bedrock-"@) {
        Some(rest) => rest,
        None => match after_prefix(raw, "vertex-"@) {
            Some(rest) => rest,
            None => match after_prefix(raw, "anthropic-"@) {
                Some(rest) => rest,
                None => match after_prefix(raw, "openwebui-"@) {
                    Some(rest) => rest,
                    None => raw,
                },
            },
        },
    }
}

/// The model's full id, without the provider that is shown elsewhere.
pub fn model_fqn(raw: &str) -> (r: String)
    ensures
        r@ == bare_model(raw@),
{
    if let Some(rest) = strip_prefix(raw, "bedrock-") {
        return rest;
    }
    if let Some(rest) = strip_prefix(raw, "vertex-") {
        return rest;
    }
    if let Some(rest) = strip_prefix(raw, "anthropic-") {
        return rest;
    }
    if let Some(rest) = strip_prefix(raw, "openwebui-") {
        return rest;
    }
    raw.to_owned()
}

/// An empty text, or the ending of a plural.
pub open spec fn plural(n: nat) -> Seq<char> {
    if n == 1 {
        ""@
    } else {
        "s"@
    }
}

/// The ending of a plural.
pub fn plural_suffix(n: u64) -> (r: &'static str)
    ensures
        r@ == plural(n as nat),
{
    if n == 1 {
        ""
    } else {
        "s"
    }
}

/// A model's name as a chip, where there is one.
pub open spec fn model_chip(model: Option<Seq<char>>) -> Seq<Seq<char>> {
    match model {
        Some(m) if bare_model(m).len() > 0 => seq![bare_model(m)],
        _ => Seq::empty(),
    }
}

fn model_chips(model: &Option<String>) -> (r: Vec<String>)
    ensures
        texts(r@) == model_chip(opt_text(*model)),
{
    let mut out: Vec<String> = Vec::new();
    match model {
        Some(m) => {
            let name = model_fqn(m.as_str());
            if crate::text::char_count(name.as_str()) > 0 {
                out.push(name);
            }
        },
        None => {},
    }
    assert(texts(out@) =~= model_chip(opt_text(*model)));
    out
}

/// The chips behind an agent's description.
pub open spec fn counter_chips(bt: BackgroundTask) -> Seq<Seq<char>> {
    let named = model_chip(opt_text(bt.model_used));
    let tools = if bt.tool_use_count > 0 {
        seq![decimal(bt.tool_use_count as nat) + " tool"@ + plural(bt.tool_use_count as nat)]
    } else {
        Seq::empty()
    };
    let tokens = if tokens_used(bt) > 0 {
        seq![token_count_text(tokens_used(bt)) + " tok"@]
    } else {
        Seq::empty()
    };
    named + tools + tokens
}

/// The counters of an agent, ` · N tools · K tok`; empty while there is nothing
/// to show.
pub open spec fn counters_text(bt: BackgroundTask) -> Seq<char> {
    if counter_chips(bt).len() == 0 {
        Seq::empty()
    } else {
        " · "@ + joined(counter_chips(bt), " · "@)
    }
}

/// The counters behind an agent's description. Empty while there is nothing to
/// show.
pub fn format_subagent_counters(bt: &BackgroundTask) -> (r: String)
    ensures
        r@ == counters_text(*bt),
{
    let mut parts = model_chips(&bt.model_used);
    let ghost named = texts(parts@);
    if bt.tool_use_count > 0 {
        parts.push(
            cat3(decimal_text(bt.tool_use_count).as_str(), " tool", plural_suffix(bt.tool_use_count)),
        );
    }
    let ghost so_far = texts(parts@);
    let total: u64 = bt.total_tokens();
    if total > 0 {
        parts.push(cat2(format_token_count(total).as_str(), " tok"));
    }
    assert(texts(parts@) =~= counter_chips(*bt));
    assert(texts(parts@).len() == parts@.len());
    if parts.len() == 0 {
        String::new()
    } else {
        cat2(" · ", join(&parts, " · ").as_str())
    }
}

/// The number of tools that an agent has used; after a shell they are called
/// shells.
pub open spec fn activity_count_text(bt: BackgroundTask) -> Seq<char> {
    let kind = if opt_text(bt.last_tool) == Some("Bash"@) {
        "shell"@
    } else {
        "tool"@
    };
    decimal(bt.tool_use_count as nat) + " "@ + kind + plural(bt.tool_use_count as nat)
}

/// The number of tools that an agent has used.
pub fn tool_activity_count_label(bt: &BackgroundTask) -> (r: String)
    ensures
        r@ == activity_count_text(*bt),
{
    let shell = match &bt.last_tool {
        Some(t) => same_text(t.as_str(), "Bash"),
        None => false,
    };
    let kind = if shell {
        "shell"
    } else {
        "tool"
    };
    cat4(decimal_text(bt.tool_use_count).as_str(), " ", kind, plural_suffix(bt.tool_use_count))
}

// ── one row ─────────────────────────────────────────────────────────────

/// The sign of an agent's state and its colour.
pub open spec fn status_sign(status: TaskLifecycle, live: bool) -> (Seq<char>, Tone) {
    if live {
        ("● "@, Tone::Warning)
    } else {
        match status {
            TaskLifecycle::Running => ("● "@, Tone::Warning),
            TaskLifecycle::Pending => ("○ "@, Tone::TextSecondary),
            TaskLifecycle::Idle => ("○ "@, Tone::TextMuted),
            TaskLifecycle::Completed => ("✓ "@, Tone::Success),
            TaskLifecycle::Failed => ("✗ "@, Tone::Error),
            TaskLifecycle::Cancelled => ("○ "@, Tone::TextMuted),
        }
    }
}

fn roster_status_glyph(status: TaskLifecycle, live: bool) -> (r: (&'static str, Tone))
    ensures
        (r.0@, r.1) == status_sign(status, live),
{
    if live {
        return ("● ", Tone::Warning);
    }
    match status {
        TaskLifecycle::Running => ("● ", Tone::Warning),
        TaskLifecycle::Pending => ("○ ", Tone::TextSecondary),
        TaskLifecycle::Idle => ("○ ", Tone::TextMuted),
        TaskLifecycle::Completed => ("✓ ", Tone::Success),
        TaskLifecycle::Failed => ("✗ ", Tone::Error),
        TaskLifecycle::Cancelled => ("○ ", Tone::TextMuted),
    }
}

/// How an agent's description is drawn.
pub open spec fn name_style(status: TaskLifecycle, live: bool) -> Style {
    if live {
        Style::in_tone(Tone::TextPrimary).made_bold()
    } else if status == TaskLifecycle::Failed {
        Style::in_tone(Tone::Error)
    } else if status.ended() || status == TaskLifecycle::Idle {
        Style::in_tone(Tone::TextMuted)
    } else {
        Style::in_tone(Tone::TextPrimary)
    }
}

fn roster_name_style(status: TaskLifecycle, live: bool) -> (r: Style)
    ensures
        r == name_style(status, live),
{
    if live {
        Style::fg(Tone::TextPrimary).bold()
    } else if status == TaskLifecycle::Failed {
        Style::fg(Tone::Error)
    } else if status.is_terminal() || status == TaskLifecycle::Idle {
        Style::fg(Tone::TextMuted)
    } else {
        Style::fg(Tone::TextPrimary)
    }
}

/// How long an agent has been running, or how it ended.
pub open spec fn time_label(bt: BackgroundTask, now: Instant) -> Seq<char> {
    match bt.status {
        TaskLifecycle::Completed => "done"@,
        TaskLifecycle::Failed => "failed"@,
        TaskLifecycle::Cancelled => "cancelled"@,
        _ => elapsed_text(now.since(bt.started_at) / 1_000_000_000),
    }
}

fn time_text(bt: &BackgroundTask, now: Instant) -> (r: String)
    ensures
        r@ == time_label(*bt, now),
{
    match bt.status {
        TaskLifecycle::Completed => "done".to_owned(),
        TaskLifecycle::Failed => "failed".to_owned(),
        TaskLifecycle::Cancelled => "cancelled".to_owned(),
        _ => fmt_elapsed(now.duration_since(bt.started_at)),
    }
}

/// The tool that an agent last used, in as much detail as is known.
pub open spec fn tool_shown(bt: BackgroundTask) -> Option<Seq<char>> {
    if bt.last_tool_info is Some {
        opt_text(bt.last_tool_info)
    } else {
        opt_text(bt.last_tool)
    }
}

fn shown_tool(bt: &BackgroundTask) -> (r: Option<String>)
    ensures
        opt_text(r) == tool_shown(*bt),
{
    match &bt.last_tool_info {
        Some(t) => Some(t.clone()),
        None => match &bt.last_tool {
            Some(t) => Some(t.clone()),
            None => None,
        },
    }
}

/// What stands at the right end of a row, the least important first: tool,
/// model, count, time, tokens.
pub open spec fn right_fields(bt: BackgroundTask, now: Instant) -> Seq<Seq<char>> {
    let tool = match tool_shown(bt) {
        Some(t) => seq![t],
        None => Seq::empty(),
    };
    let count = if bt.tool_use_count > 0 {
        seq![activity_count_text(bt)]
    } else {
        Seq::empty()
    };
    let tokens = if tokens_used(bt) > 0 {
        seq!["↓"@ + token_count_text(tokens_used(bt))]
    } else {
        Seq::empty()
    };
    tool + model_chip(opt_text(bt.model_used)) + count + seq![time_label(bt, now)] + tokens
}

/// What stands at the right end of a row, the least important first.
pub fn roster_fields(bt: &BackgroundTask, now: Instant) -> (r: Vec<String>)
    ensures
        texts(r@) == right_fields(*bt, now),
{
    let mut fields: Vec<String> = Vec::new();
    if let Some(tool) = shown_tool(bt) {
        fields.push(tool);
    }
    let ghost tool = texts(fields@);
    let mut named = model_chips(&bt.model_used);
    fields.append(&mut named);
    assert(texts(fields@) =~= tool + model_chip(opt_text(bt.model_used)));
    if bt.tool_use_count > 0 {
        fields.push(tool_activity_count_label(bt));
    }
    fields.push(time_text(bt, now));
    let total: u64 = bt.total_tokens();
    if total > 0 {
        fields.push(cat2("↓", format_token_count(total).as_str()));
    }
    assert(texts(fields@) =~= right_fields(*bt, now));
    fields
}

/// Columns that the name gets at least.
pub const NAME_MIN: usize = 12;

/// Seconds of silence after which a running agent counts as stalled.
pub const STALL_SECS: u64 = 30;

/// The note on a running agent that has gone quiet.
pub open spec fn stall_note(bt: BackgroundTask, now: Instant) -> Option<Seq<char>> {
    let quiet = now.since(bt.last_activity_at) / 1_000_000_000;
    if !bt.status.ended() && bt.status != TaskLifecycle::Idle && quiet >= STALL_SECS {
        Some("  ⚠ stalled "@ + decimal(quiet) + "s"@)
    } else {
        None
    }
}

fn stall_text(bt: &BackgroundTask, now: Instant) -> (r: Option<String>)
    ensures
        opt_text(r) == stall_note(*bt, now),
{
    let quiet: u64 = now.duration_since(bt.last_activity_at).as_secs();
    if !bt.status.is_terminal() && bt.status != TaskLifecycle::Idle && quiet >= STALL_SECS {
        Some(cat3("  ⚠ stalled ", decimal_text(quiet).as_str(), "s"))
    } else {
        None
    }
}

/// The fields as they stand at the right end.
pub open spec fn right_text(fields: Seq<Seq<char>>) -> Seq<char> {
    if fields.len() == 0 {
        Seq::empty()
    } else {
        "  "@ + joined(fields, " · "@)
    }
}

fn right_column(fields: &Vec<String>) -> (r: String)
    ensures
        r@ == right_text(texts(fields@)),
{
    assert(texts(fields@).len() == fields@.len());
    if fields.len() == 0 {
        String::new()
    } else {
        cat2("  ", join(fields, " · ").as_str())
    }
}

/// The fields that stay next to `taken` columns: while they are too wide, the
/// first goes, and the last two always stay.
pub open spec fn kept_fields(fields: Seq<Seq<char>>, taken: nat, width: nat) -> Seq<Seq<char>>
    decreases fields.len(),
{
    if fields.len() > 2 && taken + text_columns(right_text(fields)) > width {
        kept_fields(fields.skip(1), taken, width)
    } else {
        fields
    }
}

fn shed_fields(fields: Vec<String>, taken: u128, width: usize) -> (r: Vec<String>)
    requires
        taken <= 0x1_0000_0000_0000_0000_0000,
    ensures
        texts(r@) == kept_fields(texts(fields@), taken as nat, width as nat),
{
    let mut out = fields;
    while out.len() > 2 && taken + cell_width(right_column(&out).as_str()) as u128 > width as u128
        invariant
            taken <= 0x1_0000_0000_0000_0000_0000,
            kept_fields(texts(fields@), taken as nat, width as nat) == kept_fields(
                texts(out@),
                taken as nat,
                width as nat,
            ),
        decreases out@.len(),
    {
        let ghost before = texts(out@);
        assert(before.len() == out@.len());
        let _ = out.remove(0);
        assert(texts(out@) =~= before.skip(1));
    }
    assert(texts(out@).len() == out@.len());
    out
}

/// Columns of a text that may be missing.
pub open spec fn opt_columns(s: Option<Seq<char>>) -> nat {
    match s {
        Some(t) => text_columns(t) as nat,
        None => 0,
    }
}

/// Columns in front of the name.
pub open spec fn gutter(selected: bool, status: TaskLifecycle, live: bool) -> nat {
    text_columns(pointer(selected)) as nat + text_columns(status_sign(status, live).0) as nat
}

/// The mark on the agent whose transcript is open.
pub open spec fn pointer(selected: bool) -> Seq<char> {
    if selected {
        "▶ "@
    } else {
        "  "@
    }
}

/// The larger of two.
pub open spec fn larger(a: nat, b: nat) -> nat {
    if a >= b {
        a
    } else {
        b
    }
}

/// The row of one agent.
pub open spec fn agent_row(
    bt: BackgroundTask,
    last_active: Option<Seq<char>>,
    viewing: Option<Seq<char>>,
    width: nat,
    now: Instant,
) -> Row {
    let live = is_live(bt, last_active);
    let selected = viewing == Some(bt.task_id@);
    let sign = status_sign(bt.status, live);
    let stall = stall_note(bt, now);
    let front = gutter(selected, bt.status, live) + opt_columns(stall);
    let right = right_text(kept_fields(right_fields(bt, now), front + NAME_MIN as nat, width));
    let taken = front + text_columns(right) as nat;
    let name = cut_to_cells(bt.description@, larger(less(width, taken), NAME_MIN as nat));
    let pad = less(width, taken + text_columns(name) as nat);
    put_together(
        (pointer(selected), Style::in_tone(Tone::Accent).made_bold()),
        (sign.0, Style::in_tone(sign.1)),
        (name, name_style(bt.status, live)),
        stall,
        (repeated(" "@, pad), Style::plain_style()),
        (right, Style::in_tone(Tone::TextMuted)),
    )
}

/// The spans of a row: mark, state, name, note, gap and right end.
pub open spec fn put_together(
    mark: (Seq<char>, Style),
    sign: (Seq<char>, Style),
    name: (Seq<char>, Style),
    stall: Option<Seq<char>>,
    gap: (Seq<char>, Style),
    right: (Seq<char>, Style),
) -> Row {
    match stall {
        Some(s) => seq![mark, sign, name, (s, Style::in_tone(Tone::Warning).made_bold()), gap, right],
        None => seq![mark, sign, name, gap, right],
    }
}

fn put_spans_together(mark: Span, sign: Span, name: Span, stall: Option<String>, gap: Span, right: Span) -> (r: Line)
    ensures
        r@ == put_together(mark@, sign@, name@, opt_text(stall), gap@, right@),
{
    let mut spans: Vec<Span> = Vec::new();
    spans.push(mark);
    spans.push(sign);
    spans.push(name);
    if let Some(s) = stall {
        spans.push(span(s, Style::fg(Tone::Warning).bold()));
    }
    spans.push(gap);
    spans.push(right);
    let line = Line { spans };
    assert(line@ =~= put_together(mark@, sign@, name@, opt_text(stall), gap@, right@));
    line
}

/// The row of one agent: the mark, the state, the description, a note where the
/// agent has gone quiet, and the fields at the right end.
pub fn roster_row(
    bt: &BackgroundTask,
    last_active: &Option<String>,
    viewing: &Option<String>,
    width: usize,
    now: Instant,
) -> (r: Line)
    ensures
        r@ == agent_row(*bt, opt_text(*last_active), opt_text(*viewing), width as nat, now),
{
    let live = roster_is_active(bt, last_active);
    let selected = match viewing {
        Some(id) => same_text(id.as_str(), bt.task_id.as_str()),
        None => false,
    };
    let ptr = if selected {
        "▶ "
    } else {
        "  "
    };
    let (glyph, tone) = roster_status_glyph(bt.status, live);
    let stall = stall_text(bt, now);
    let stall_w: u128 = match &stall {
        Some(s) => cell_width(s.as_str()) as u128,
        None => 0,
    };
    let front: u128 = cell_width(ptr) as u128 + cell_width(glyph) as u128 + stall_w;
    let fields = shed_fields(roster_fields(bt, now), front + NAME_MIN as u128, width);
    let right = right_column(&fields);
    let taken: u128 = front + cell_width(right.as_str()) as u128;
    let free: usize = if width as u128 >= taken {
        (width as u128 - taken) as usize
    } else {
        0
    };
    let budget: usize = if free >= NAME_MIN {
        free
    } else {
        NAME_MIN
    };
    let name = truncate_cells(bt.description.as_str(), budget);
    let all: u128 = taken + cell_width(name.as_str()) as u128;
    let pad: usize = if width as u128 >= all {
        (width as u128 - all) as usize
    } else {
        0
    };
    put_spans_together(
        span(ptr.to_owned(), Style::fg(Tone::Accent).bold()),
        span(glyph.to_owned(), Style::fg(tone)),
        span(name, roster_name_style(bt.status, live)),
        stall,
        span(repeat(" ", pad), Style::plain()),
        span(right, Style::fg(Tone::TextMuted)),
    )
}

/// A narrow row sheds its fields from the front and keeps the last two: how
/// long the agent has run, and its tokens.
pub proof fn law_last_fields_stay(fields: Seq<Seq<char>>, taken: nat, width: nat)
    ensures
        ({
            let kept = kept_fields(fields, taken, width);
            &&& kept.len() <= fields.len()
            &&& kept == fields.skip(fields.len() - kept.len())
            &&& kept.len() < fields.len() ==> kept.len() >= 2
            &&& kept.len() > 2 ==> taken + text_columns(right_text(kept)) <= width
        }),
    decreases fields.len(),
{
    if fields.len() > 2 && taken + text_columns(right_text(fields)) > width {
        law_last_fields_stay(fields.skip(1), taken, width);
        let kept = kept_fields(fields, taken, width);
        assert(fields.skip(1).skip(fields.len() - 1 - kept.len()) =~= fields.skip(
            fields.len() - kept.len(),
        ));
    } else {
        assert(fields.skip(0) =~= fields);
    }
}

proof fn lemma_time_is_kept(bt: BackgroundTask, now: Instant, taken: nat, width: nat)
    ensures
        has_text(right_text(kept_fields(right_fields(bt, now), taken, width)), time_label(bt, now)),
{
    let fields = right_fields(bt, now);
    let kept = kept_fields(fields, taken, width);
    let time = time_label(bt, now);
    law_last_fields_stay(fields, taken, width);
    let back: int = if tokens_used(bt) > 0 {
        2
    } else {
        1
    };
    assert(fields.len() >= back);
    assert(fields[fields.len() - back] == time);
    assert(kept.len() >= back);
    assert(kept[kept.len() - back] == time);
    lemma_joined_has(kept, " · "@, kept.len() - back);
    lemma_has_in_sum("  "@, joined(kept, " · "@), time);
}

/// The row of an agent shows its time, or how it ended, however narrow the row is, and
/// a stall with its seconds.
pub proof fn law_rows_tell_how_an_agent_stands(
    bt: BackgroundTask,
    last_active: Option<Seq<char>>,
    viewing: Option<Seq<char>>,
    width: nat,
    now: Instant,
)
    ensures
        has_text(row_text(agent_row(bt, last_active, viewing, width, now)), time_label(bt, now)),
        bt.status == TaskLifecycle::Completed ==> time_label(bt, now) == "done"@,
        bt.status == TaskLifecycle::Failed ==> time_label(bt, now) == "failed"@,
        bt.status == TaskLifecycle::Cancelled ==> time_label(bt, now) == "cancelled"@,
        bt.status == TaskLifecycle::Running && now.since(bt.last_activity_at) >= 30_000_000_000 ==> has_text(
            row_text(agent_row(bt, last_active, viewing, width, now)),
            "stalled "@ + decimal(now.since(bt.last_activity_at) / 1_000_000_000) + "s"@,
        ),
{
    let row = agent_row(bt, last_active, viewing, width, now);
    let stall = stall_note(bt, now);
    let front = gutter(viewing == Some(bt.task_id@), bt.status, is_live(bt, last_active)) + opt_columns(stall);
    lemma_time_is_kept(bt, now, front + NAME_MIN as nat, width);
    lemma_row_has(row, row.len() - 1, time_label(bt, now));
    if stall is Some {
        lemma_stall_words(bt, now);
        lemma_row_has(
            row,
            3,
            "stalled "@ + decimal(now.since(bt.last_activity_at) / 1_000_000_000) + "s"@,
        );
    }
}

proof fn lemma_stall_words(bt: BackgroundTask, now: Instant)
    requires
        stall_note(bt, now) is Some,
    ensures
        has_text(
            stall_note(bt, now)->0,
            "stalled "@ + decimal(now.since(bt.last_activity_at) / 1_000_000_000) + "s"@,
        ),
{
    reveal_strlit("  ⚠ stalled ");
    reveal_strlit("stalled ");
    let stall = stall_note(bt, now)->0;
    let w = "stalled "@ + decimal(now.since(bt.last_activity_at) / 1_000_000_000) + "s"@;
    assert(stall.subrange(4, stall.len() as int) =~= w);
    assert(crate::slicing::occurs_at(stall, w, 4));
}

/// The signs of a row: the pointer marks the agent that is being looked at, and no
/// other, and the sign behind it is that of the agent's state.
pub proof fn law_rows_carry_the_sign_of_the_state(
    bt: BackgroundTask,
    last_active: Option<Seq<char>>,
    viewing: Option<Seq<char>>,
    width: nat,
    now: Instant,
)
    ensures
        ({
            let row = agent_row(bt, last_active, viewing, width, now);
            &&& viewing == Some(bt.task_id@) <==> row[0].0 == "▶ "@
            &&& row[1].0 == (match bt.status {
                TaskLifecycle::Running => "● "@,
                TaskLifecycle::Pending => if last_active == Some(bt.task_id@) {
                    "● "@
                } else {
                    "○ "@
                },
                TaskLifecycle::Idle | TaskLifecycle::Cancelled => "○ "@,
                TaskLifecycle::Completed => "✓ "@,
                TaskLifecycle::Failed => "✗ "@,
            })
        }),
{
    reveal_strlit("▶ ");
    reveal_strlit("  ");
    assert("▶ "@[0] != "  "@[0]);
}

/// What an agent did and used is among the fields of its row, and among its counters.
pub proof fn law_fields_tell_what_an_agent_did(bt: BackgroundTask, now: Instant)
    ensures
        bt.last_tool_info is Some ==> right_fields(bt, now).contains(bt.last_tool_info->0@),
        bt.last_tool_info is None && bt.last_tool is Some ==> right_fields(bt, now).contains(bt.last_tool->0@),
        bt.tool_use_count > 0 ==> right_fields(bt, now).contains(activity_count_text(bt)),
        bt.tool_use_count > 0 ==> has_text(counters_text(bt), decimal(bt.tool_use_count as nat) + " tool"@),
        tokens_used(bt) > 0 ==> right_fields(bt, now).contains("↓"@ + token_count_text(tokens_used(bt))),
        tokens_used(bt) > 0 ==> has_text(counters_text(bt), token_count_text(tokens_used(bt)) + " tok"@),
        bt.model_used is Some && bare_model(bt.model_used->0@).len() > 0 ==> right_fields(bt, now).contains(
            bare_model(bt.model_used->0@),
        ) && has_text(counters_text(bt), bare_model(bt.model_used->0@)),
        has_text(activity_count_text(bt), decimal(bt.tool_use_count as nat)),
{
    let fields = right_fields(bt, now);
    let chips = counter_chips(bt);
    let named = model_chip(opt_text(bt.model_used));
    let tool: int = if tool_shown(bt) is Some {
        1
    } else {
        0
    };
    if tool_shown(bt) is Some {
        assert(fields[0] == tool_shown(bt)->0);
    }
    if named.len() > 0 {
        assert(fields[tool] == named[0]);
        assert(chips[0] == named[0]);
        lemma_joined_has(chips, " · "@, 0);
        lemma_has_in_sum(" · "@, joined(chips, " · "@), named[0]);
    }
    let n = decimal(bt.tool_use_count as nat);
    if bt.tool_use_count > 0 {
        assert(fields[tool + named.len()] == activity_count_text(bt));
        let at = named.len() as int;
        lemma_joined_has(chips, " · "@, at);
        lemma_has_in_sum(" · "@, joined(chips, " · "@), chips[at]);
        lemma_has_in_sum(n + " tool"@, plural(bt.tool_use_count as nat), n);
        lemma_has_trans(counters_text(bt), chips[at], n + " tool"@);
    }
    if tokens_used(bt) > 0 {
        assert(fields[fields.len() - 1] == "↓"@ + token_count_text(tokens_used(bt)));
        let at = chips.len() - 1;
        assert(chips[at] == token_count_text(tokens_used(bt)) + " tok"@);
        lemma_joined_has(chips, " · "@, at);
        lemma_has_in_sum(" · "@, joined(chips, " · "@), chips[at]);
    }
    let kind = if opt_text(bt.last_tool) == Some("Bash"@) {
        "shell"@
    } else {
        "tool"@
    };
    lemma_has_itself(n);
    lemma_has_in_sum(n, " "@, n);
    lemma_has_in_sum(n + " "@, kind, n);
    lemma_has_in_sum(n + " "@ + kind, plural(bt.tool_use_count as nat), n);
}

/// A model is named without the provider that serves it: whichever of the known ones
/// stands in front, the name behind it is shown.
pub proof fn law_models_are_named_without_their_provider(name: Seq<char>)
    ensures
        bare_model("bedrock-"@ + name) == name,
        bare_model("vertex-"@ + name) == name,
        bare_model("anthropic-"@ + name) == name,
        bare_model("openwebui-"@ + name) == name,
        bare_model(name).len() <= name.len(),
        crate::slicing::has_suffix(name, bare_model(name)),
{
    reveal_strlit("bedrock-");
    reveal_strlit("vertex-");
    reveal_strlit("anthropic-");
    reveal_strlit("openwebui-");
    let b = "bedrock-"@ + name;
    let v = "vertex-"@ + name;
    let a = "anthropic-"@ + name;
    let o = "openwebui-"@ + name;
    assert(b.subrange(0, 8) =~= "bedrock-"@);
    assert(b.skip(8) =~= name);
    assert(v.subrange(0, 7) =~= "vertex-"@);
    assert(v.skip(7) =~= name);
    assert(a.subrange(0, 10) =~= "anthropic-"@);
    assert(a.skip(10) =~= name);
    assert(o.subrange(0, 10) =~= "openwebui-"@);
    assert(o.skip(10) =~= name);
    assert(v[0] == 'v' && a[0] == 'a' && o[0] == 'o');
    if v.len() >= 8 {
        assert(v.subrange(0, 8)[0] == 'v');
    }
    if a.len() >= 8 {
        assert(a.subrange(0, 8)[0] == 'a');
        assert(a.subrange(0, 7)[0] == 'a');
    }
    if o.len() >= 8 {
        assert(o.subrange(0, 8)[0] == 'o');
        assert(o.subrange(0, 7)[0] == 'o');
        assert(o.subrange(0, 10)[0] == 'o');
    }
    assert("bedrock-"@[0] == 'b' && "vertex-"@[0] == 'v' && "anthropic-"@[0] == 'a');
    let r = bare_model(name);
    assert(name.subrange(name.len() - r.len(), name.len() as int) =~= r);
}

/// An agent is live only while it works and was the last to act: where it idles, has
/// ended, or another acted since, it is not.
pub proof fn law_the_last_to_act_is_live(bt: BackgroundTask, last_active: Option<Seq<char>>)
    ensures
        is_live(bt, last_active) ==> last_active == Some(bt.task_id@) && bt.status != TaskLifecycle::Completed
            && bt.status != TaskLifecycle::Failed && bt.status != TaskLifecycle::Cancelled && bt.status
            != TaskLifecycle::Idle,
        bt.status == TaskLifecycle::Running ==> is_live(bt, Some(bt.task_id@)),
        !is_live(bt, None),
{
}

} // verus!
