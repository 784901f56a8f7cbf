//! The fleet of background agents in its order, and the fan that shows it.
use vstd::prelude::*;

use crate::background::{Fleet, BackgroundTask};
use crate::descriptors::items_of;
use crate::fitting::{cell_width, text_columns};
use crate::order::{lemma_sorted_map, rank_order, sort_stable, sorted, text_before, text_is_before, Ranked};
use crate::pinned::Row;
use crate::roster::{agent_row, ended_lately, failed_is_fresh, fleet_rank_of, rank_in_fleet, roster_row};
use crate::showing::{lemma_has_in_sum, lemma_row_has, row_text};
use crate::slicing::{group_texts, has_text, opt_text, repeat, repeated, texts};
use crate::styled::{group_rows, line1, row1, rows, span, spans_of, Line, Span, Style, Tone};
use crate::text::{cat3, count_text, decimal};
use crate::time::Instant;
use crate::transcript::TaskLifecycle;

verus! {

broadcast use {group_texts, group_rows};

// ── order ───────────────────────────────────────────────────────────────

/// An agent with its rank.
pub struct RankedAgent<'a> {
    pub rank: u8,
    pub task: &'a BackgroundTask,
}

/// What a ranked agent shows.
pub open spec fn ranked_model<'a>(e: RankedAgent<'a>) -> (u8, BackgroundTask) {
    (e.rank, *e.task)
}

/// The rank decides, then the id.
pub open spec fn fleet_order() -> spec_fn((u8, BackgroundTask), (u8, BackgroundTask)) -> bool {
    |a: (u8, BackgroundTask), b: (u8, BackgroundTask)|
        if a.0 != b.0 {
            a.0 < b.0
        } else {
            text_before(a.1.task_id@, b.1.task_id@)
        }
}

impl<'a> Ranked for RankedAgent<'a> {
    open spec fn before(&self, other: &Self) -> bool {
        fleet_order()(ranked_model(*self), ranked_model(*other))
    }

    fn is_before(&self, other: &Self) -> (r: bool) {
        if self.rank != other.rank {
            self.rank < other.rank
        } else {
            text_is_before(self.task.task_id.as_str(), other.task.task_id.as_str())
        }
    }
}

/// The agents with their ranks.
pub open spec fn with_ranks(tasks: Seq<BackgroundTask>, last_active: Option<Seq<char>>, now: Instant) -> Seq<
    (u8, BackgroundTask),
> {
    tasks.map_values(|t: BackgroundTask| (rank_in_fleet(t, last_active, now), t))
}

/// The agents in the order of the fleet.
pub open spec fn in_fleet_order(tasks: Seq<BackgroundTask>, last_active: Option<Seq<char>>, now: Instant) -> Seq<
    (u8, BackgroundTask),
> {
    sorted(with_ranks(tasks, last_active, now), fleet_order())
}

/// What a list of ranked agents shows.
pub open spec fn ranked_models<'a>(v: Seq<RankedAgent<'a>>) -> Seq<(u8, BackgroundTask)> {
    v.map_values(|e: RankedAgent<'a>| ranked_model(e))
}

fn order_fleet<'a>(tasks: Vec<&'a BackgroundTask>, last_active: &Option<String>, now: Instant) -> (r: Vec<
    RankedAgent<'a>,
>)
    ensures
        ranked_models(r@) == in_fleet_order(items_of(tasks@), opt_text(*last_active), now),
{
    let ghost all = with_ranks(items_of(tasks@), opt_text(*last_active), now);
    let mut out: Vec<RankedAgent<'a>> = Vec::new();
    let mut i: usize = 0;
    assert(ranked_models(out@) =~= all.take(0));
    while i < tasks.len()
        invariant
            i <= tasks@.len(),
            all == with_ranks(items_of(tasks@), opt_text(*last_active), now),
            ranked_models(out@) == all.take(i as int),
        decreases tasks@.len() - i,
    {
        let e = RankedAgent { rank: fleet_rank_of(tasks[i], last_active, now), task: tasks[i] };
        let ghost before = out@;
        out.push(e);
        assert(ranked_models(out@) =~= ranked_models(before).push(ranked_model(e)));
        assert(all.take(i + 1) =~= all.take(i as int).push(all[i as int]));
        i += 1;
    }
    assert(all.take(i as int) =~= all);
    proof {
        lemma_sorted_map(
            out@,
            |e: RankedAgent<'a>| ranked_model(e),
            rank_order::<RankedAgent<'a>>(),
            fleet_order(),
        );
    }
    sort_stable(out)
}

/// All agents of a list.
pub fn all_agents<'a>(tasks: &'a Vec<BackgroundTask>) -> (r: Vec<&'a BackgroundTask>)
    ensures
        items_of(r@) == tasks@,
{
    let mut out: Vec<&'a BackgroundTask> = Vec::new();
    let mut i: usize = 0;
    assert(items_of(out@) =~= tasks@.take(0));
    while i < tasks.len()
        invariant
            i <= tasks@.len(),
            items_of(out@) == tasks@.take(i as int),
        decreases tasks@.len() - i,
    {
        let ghost before = out@;
        out.push(&tasks[i]);
        assert(items_of(out@) =~= items_of(before).push(tasks@[i as int]));
        assert(tasks@.take(i + 1) =~= tasks@.take(i as int).push(tasks@[i as int]));
        i += 1;
    }
    assert(tasks@.take(i as int) =~= tasks@);
    out
}

/// The ids of the agents in the order of the fleet.
pub open spec fn fleet_ids(tasks: Seq<BackgroundTask>, last_active: Option<Seq<char>>, now: Instant) -> Seq<
    Seq<char>,
> {
    in_fleet_order(tasks, last_active, now).map_values(|p: (u8, BackgroundTask)| p.1.task_id@)
}

/// The ids of the agents in the order in which they are shown, so that stepping
/// through them follows the eye.
pub fn fleet_ordered_task_ids(fleet: &Fleet, now: Instant) -> (r: Vec<String>)
    ensures
        texts(r@) == fleet_ids(fleet.tasks@, opt_text(fleet.last_active), now),
{
    let ordered = order_fleet(all_agents(&fleet.tasks), &fleet.last_active, now);
    let ghost all = fleet_ids(fleet.tasks@, opt_text(fleet.last_active), now);
    let mut out: Vec<String> = Vec::new();
    let mut i: usize = 0;
    assert(texts(out@) =~= all.take(0));
    while i < ordered.len()
        invariant
            i <= ordered@.len(),
            all == ranked_models(ordered@).map_values(|p: (u8, BackgroundTask)| p.1.task_id@),
            texts(out@) == all.take(i as int),
        decreases ordered@.len() - i,
    {
        out.push(ordered[i].task.task_id.clone());
        assert(all.take(i + 1) =~= all.take(i as int).push(all[i as int]));
        i += 1;
    }
    assert(all.take(i as int) =~= all);
    out
}

/// In the fleet a lower rank stands first, and among equal ranks the ids ascend.
pub proof fn law_fleet_is_in_order(tasks: Seq<BackgroundTask>, last_active: Option<Seq<char>>, now: Instant)
    ensures
        ({
            let s = in_fleet_order(tasks, last_active, now);
            &&& s.len() == tasks.len()
            &&& forall|i: int, j: int|
                #![trigger s[i], s[j]]
                0 <= i < j < s.len() ==> s[i].0 <= s[j].0 && (s[i].0 == s[j].0 ==> !text_before(
                    s[j].1.task_id@,
                    s[i].1.task_id@,
                ))
        }),
{
    let before = fleet_order();
    let s = with_ranks(tasks, last_active, now);
    assert(crate::order::is_weak_order(before)) by {
        assert forall|a: (u8, BackgroundTask), b: (u8, BackgroundTask)| #[trigger] before(a, b) implies !before(b, a) by {
            crate::order::law_text_order(a.1.task_id@, b.1.task_id@, a.1.task_id@);
        }
        assert forall|a: (u8, BackgroundTask), b: (u8, BackgroundTask), c: (u8, BackgroundTask)|
            #![trigger before(a, b), before(b, c)]
            !before(a, b) && !before(b, c) implies !before(a, c) by {
            crate::order::law_text_order(a.1.task_id@, b.1.task_id@, c.1.task_id@);
            crate::order::law_text_order(c.1.task_id@, b.1.task_id@, a.1.task_id@);
            crate::order::law_text_order(b.1.task_id@, c.1.task_id@, a.1.task_id@);
            crate::order::law_text_order(a.1.task_id@, c.1.task_id@, b.1.task_id@);
        }
    }
    crate::order::law_sorted_is_in_order(s, before);
    crate::order::law_sorted_is_a_permutation(s, before);
    let t = sorted(s, before);
    assert forall|i: int, j: int|
        #![trigger t[i], t[j]]
        0 <= i < j < t.len() implies t[i].0 <= t[j].0 && (t[i].0 == t[j].0 ==> !text_before(
        t[j].1.task_id@,
        t[i].1.task_id@,
    )) by {
        assert(!before(t[j], t[i]));
    }
}

// ── the fan ─────────────────────────────────────────────────────────────

/// The agents that are alive or ended a moment ago.
pub open spec fn shown_agents(tasks: Seq<BackgroundTask>, now: Instant) -> Seq<BackgroundTask>
    decreases tasks.len(),
{
    if tasks.len() == 0 {
        tasks
    } else if !tasks.last().status.ended() || ended_lately(tasks.last(), now) {
        shown_agents(tasks.drop_last(), now).push(tasks.last())
    } else {
        shown_agents(tasks.drop_last(), now)
    }
}

fn agents_to_show<'a>(tasks: &'a Vec<BackgroundTask>, now: Instant) -> (r: Vec<&'a BackgroundTask>)
    ensures
        items_of(r@) == shown_agents(tasks@, now),
{
    let mut out: Vec<&'a BackgroundTask> = Vec::new();
    let mut i: usize = 0;
    assert(tasks@.take(0) =~= Seq::<BackgroundTask>::empty());
    assert(items_of(out@) =~= shown_agents(tasks@.take(0), now));
    while i < tasks.len()
        invariant
            i <= tasks@.len(),
            items_of(out@) == shown_agents(tasks@.take(i as int), now),
        decreases tasks@.len() - i,
    {
        assert(tasks@.take(i + 1).drop_last() =~= tasks@.take(i as int));
        if tasks[i].status.is_alive() || failed_is_fresh(&tasks[i], now) {
            let ghost before = out@;
            out.push(&tasks[i]);
            assert(items_of(out@) =~= items_of(before).push(tasks@[i as int]));
        }
        i += 1;
    }
    assert(tasks@.take(i as int) =~= tasks@);
    out
}

/// What an agent counts as in the summary.
#[derive(Debug, Clone, Copy, PartialEq, Eq, Structural)]
pub enum Tally {
    Running,
    Idle,
    Done,
    Failed,
    Left,
}

/// What an agent counts as.
pub open spec fn tally_of(status: TaskLifecycle) -> Tally {
    match status {
        TaskLifecycle::Idle => Tally::Idle,
        TaskLifecycle::Failed => Tally::Failed,
        TaskLifecycle::Completed => Tally::Done,
        TaskLifecycle::Cancelled => Tally::Left,
        TaskLifecycle::Running | TaskLifecycle::Pending => Tally::Running,
    }
}

fn tally(status: TaskLifecycle) -> (r: Tally)
    ensures
        r == tally_of(status),
{
    match status {
        TaskLifecycle::Idle => Tally::Idle,
        TaskLifecycle::Failed => Tally::Failed,
        TaskLifecycle::Completed => Tally::Done,
        TaskLifecycle::Cancelled => Tally::Left,
        TaskLifecycle::Running | TaskLifecycle::Pending => Tally::Running,
    }
}

/// How many agents count as that.
pub open spec fn tally_count(tasks: Seq<BackgroundTask>, what: Tally) -> nat
    decreases tasks.len(),
{
    if tasks.len() == 0 {
        0
    } else {
        tally_count(tasks.drop_last(), what) + if tally_of(tasks.last().status) == what {
            1nat
        } else {
            0nat
        }
    }
}

fn count_tally(tasks: &Vec<BackgroundTask>, what: Tally) -> (r: usize)
    ensures
        r == tally_count(tasks@, what),
{
    let mut n: usize = 0;
    let mut i: usize = 0;
    assert(tasks@.take(0) =~= Seq::<BackgroundTask>::empty());
    while i < tasks.len()
        invariant
            i <= tasks@.len(),
            n <= i,
            n == tally_count(tasks@.take(i as int), what),
        decreases tasks@.len() - i,
    {
        assert(tasks@.take(i + 1).drop_last() =~= tasks@.take(i as int));
        if tally(tasks[i].status) == what {
            n += 1;
        }
        i += 1;
    }
    assert(tasks@.take(i as int) =~= tasks@);
    n
}

/// A chip of the summary, where the count is not zero.
pub open spec fn count_chip(sign: Seq<char>, n: nat, style: Style) -> Row {
    if n > 0 {
        seq![(sign + decimal(n) + " "@, style)]
    } else {
        Seq::empty()
    }
}

fn push_count_chip(out: &mut Vec<Span>, sign: &str, n: usize, style: Style)
    ensures
        spans_of(final(out)@) == spans_of(old(out)@) + count_chip(sign@, n as nat, style),
{
    if n > 0 {
        let chip = span(cat3(sign, count_text(n).as_str(), " "), style);
        let ghost before = spans_of(out@);
        out.push(chip);
        assert(spans_of(out@) =~= before + count_chip(sign@, n as nat, style));
    } else {
        assert(spans_of(out@) =~= spans_of(old(out)@) + count_chip(sign@, n as nat, style));
    }
}

/// The summary of the fleet: how many run, idle, are done and have failed.
pub open spec fn summary_chips(tasks: Seq<BackgroundTask>) -> Row {
    seq![("agents  "@, Style::in_tone(Tone::TextMuted).made_bold())] + count_chip(
        "●"@,
        tally_count(tasks, Tally::Running),
        Style::in_tone(Tone::Warning),
    ) + count_chip("○"@, tally_count(tasks, Tally::Idle), Style::in_tone(Tone::TextMuted)) + count_chip(
        "✓"@,
        tally_count(tasks, Tally::Done),
        Style::in_tone(Tone::Success),
    ) + count_chip("✗"@, tally_count(tasks, Tally::Failed), Style::in_tone(Tone::Error).made_bold())
}

/// Columns that the spans of a row take.
pub open spec fn row_columns(row: Row) -> nat
    decreases row.len(),
{
    if row.len() == 0 {
        0
    } else {
        row_columns(row.drop_last()) + text_columns(row.last().0) as nat
    }
}

/// Columns that the spans of a row take, but no more than `limit`.
pub fn spans_width(spans: &Vec<Span>, limit: usize) -> (r: usize)
    ensures
        r == (if row_columns(spans_of(spans@)) > limit {
            limit as nat
        } else {
            row_columns(spans_of(spans@))
        }),
{
    let ghost all = spans_of(spans@);
    let mut w: usize = 0;
    let mut i: usize = 0;
    assert(all.take(0).len() == 0);
    while i < spans.len()
        invariant
            i <= spans@.len(),
            all == spans_of(spans@),
            w <= limit,
            w == (if row_columns(all.take(i as int)) > limit {
                limit as nat
            } else {
                row_columns(all.take(i as int))
            }),
        decreases spans@.len() - i,
    {
        assert(all.take(i + 1).drop_last() =~= all.take(i as int));
        assert(all.take(i + 1).last() == spans@[i as int]@);
        let cells: usize = cell_width(spans[i].text.as_str());
        if cells > limit - w {
            w = limit;
        } else {
            w += cells;
        }
        i += 1;
    }
    assert(all.take(i as int) =~= all);
    w
}

/// `row` with a hint at its right end, where there is room for both and a
/// column between them.
pub open spec fn with_hint(row: Row, hint: Seq<char>, width: nat) -> Row {
    if row_columns(row) + text_columns(hint) < width {
        row + seq![
            (
                repeated(" "@, (width - row_columns(row) - text_columns(hint)) as nat),
                Style::plain_style(),
            ),
            (hint, Style::in_tone(Tone::TextMuted)),
        ]
    } else {
        row
    }
}

fn add_hint(spans: Vec<Span>, hint: &str, width: usize) -> (r: Vec<Span>)
    ensures
        spans_of(r@) == with_hint(spans_of(spans@), hint@, width as nat),
{
    let used: usize = spans_width(&spans, width);
    let cells: usize = cell_width(hint);
    let mut out = spans;
    if used < width && cells < width - used {
        let ghost before = spans_of(out@);
        out.push(span(repeat(" ", width - used - cells), Style::plain()));
        out.push(span(hint.to_owned(), Style::fg(Tone::TextMuted)));
        assert(spans_of(out@) =~= with_hint(before, hint@, width as nat));
    }
    out
}

/// The summary line of the fan.
pub open spec fn summary_row(tasks: Seq<BackgroundTask>, width: nat) -> Row {
    with_hint(summary_chips(tasks), " ↑↓ select · ↵ view"@, width)
}

fn summary_line(tasks: &Vec<BackgroundTask>, width: usize) -> (r: Line)
    ensures
        r@ == summary_row(tasks@, width as nat),
{
    let mut chips: Vec<Span> = Vec::new();
    chips.push(span("agents  ".to_owned(), Style::fg(Tone::TextMuted).bold()));
    assert(spans_of(chips@) =~= seq![("agents  "@, Style::in_tone(Tone::TextMuted).made_bold())]);
    push_count_chip(&mut chips, "●", count_tally(tasks, Tally::Running), Style::fg(Tone::Warning));
    push_count_chip(&mut chips, "○", count_tally(tasks, Tally::Idle), Style::fg(Tone::TextMuted));
    push_count_chip(&mut chips, "✓", count_tally(tasks, Tally::Done), Style::fg(Tone::Success));
    push_count_chip(&mut chips, "✗", count_tally(tasks, Tally::Failed), Style::fg(Tone::Error).bold());
    Line { spans: add_hint(chips, " ↑↓ select · ↵ view", width) }
}

/// The rows of agents.
pub open spec fn agent_rows(
    agents: Seq<(u8, BackgroundTask)>,
    last_active: Option<Seq<char>>,
    viewing: Option<Seq<char>>,
    width: nat,
    now: Instant,
) -> Seq<Row> {
    agents.map_values(|p: (u8, BackgroundTask)| agent_row(p.1, last_active, viewing, width, now))
}

/// The fan below its summary, in `room` rows: the first agents, and where not
/// all fit, a last row that says how many are missing.
pub open spec fn fan_body(all: Seq<Row>, room: nat) -> Seq<Row> {
    if all.len() > room {
        all.take(room - 1).push(
            row1(
                "  ▾ +"@ + decimal((all.len() - room + 1) as nat) + " more (running shown first)"@,
                Style::in_tone(Tone::TextMuted).made_italic(),
            ),
        )
    } else {
        all
    }
}

/// The fan of agents in an area of that size.
pub open spec fn fan_rows(
    tasks: Seq<BackgroundTask>,
    last_active: Option<Seq<char>>,
    viewing: Option<Seq<char>>,
    width: nat,
    height: nat,
    now: Instant,
) -> Seq<Row> {
    if height == 0 || width < 20 || shown_agents(tasks, now).len() == 0 {
        Seq::empty()
    } else {
        let all = agent_rows(
            in_fleet_order(shown_agents(tasks, now), last_active, now),
            last_active,
            viewing,
            width,
            now,
        );
        let room = if height > 1 {
            (height - 1) as nat
        } else {
            1
        };
        let lines = seq![summary_row(tasks, width)] + fan_body(all, room);
        if lines.len() > height {
            lines.take(height as int)
        } else {
            lines
        }
    }
}

/// The fan of agents: a summary, then the agents that are alive or ended a
/// moment ago, the live ones first.
pub fn render_subagent_tree(fleet: &Fleet, width: u16, height: u16, now: Instant) -> (r: Vec<Line>)
    ensures
        rows(r@) == fan_rows(
            fleet.tasks@,
            opt_text(fleet.last_active),
            opt_text(fleet.viewing),
            width as nat,
            height as nat,
            now,
        ),
{
    let mut out: Vec<Line> = Vec::new();
    if height == 0 || width < 20 {
        return out;
    }
    let shown = agents_to_show(&fleet.tasks, now);
    assert(items_of(shown@).len() == shown@.len());
    if shown.len() == 0 {
        return out;
    }
    let ordered = order_fleet(shown, &fleet.last_active, now);
    let ghost all = agent_rows(
        ranked_models(ordered@),
        opt_text(fleet.last_active),
        opt_text(fleet.viewing),
        width as nat,
        now,
    );
    let body: usize = if height > 1 {
        height as usize - 1
    } else {
        1
    };
    let overflow = ordered.len() > body;
    let visible: usize = if overflow {
        body - 1
    } else {
        ordered.len()
    };
    let head = summary_line(&fleet.tasks, width as usize);
    out.push(head);
    let mut i: usize = 0;
    assert(rows(out@) =~= seq![head@] + all.take(0));
    while i < visible
        invariant
            i <= visible <= ordered@.len(),
            all == agent_rows(
                ranked_models(ordered@),
                opt_text(fleet.last_active),
                opt_text(fleet.viewing),
                width as nat,
                now,
            ),
            rows(out@) == seq![head@] + all.take(i as int),
        decreases visible - i,
    {
        out.push(roster_row(ordered[i].task, &fleet.last_active, &fleet.viewing, width as usize, now));
        assert(seq![head@] + all.take(i + 1) =~= (seq![head@] + all.take(i as int)).push(all[i as int]));
        i += 1;
    }
    if overflow {
        let foot = line1(
            cat3("  ▾ +", count_text(ordered.len() - visible).as_str(), " more (running shown first)"),
            Style::fg(Tone::TextMuted).italic(),
        );
        out.push(foot);
        assert(rows(out@) =~= seq![head@] + all.take(visible as int).push(foot@));
    } else {
        assert(all.take(visible as int) =~= all);
    }
    assert(rows(out@) =~= seq![head@] + fan_body(all, body as nat));
    assert(rows(out@).len() == out@.len());
    if out.len() > height as usize {
        let ghost lines = rows(out@);
        out.truncate(height as usize);
        assert(rows(out@) =~= lines.take(height as int));
    }
    out
}

/// How many agents are in a state.
pub open spec fn how_many(tasks: Seq<BackgroundTask>, status: TaskLifecycle) -> nat
    decreases tasks.len(),
{
    if tasks.len() == 0 {
        0
    } else {
        how_many(tasks.drop_last(), status) + (if tasks.last().status == status {
            1nat
        } else {
            0
        })
    }
}

/// The summary counts each agent under its state, those that wait with those that run,
/// and leaves out only those that were cancelled.
pub proof fn law_summary_counts_every_agent(tasks: Seq<BackgroundTask>)
    ensures
        tally_count(tasks, Tally::Running) == how_many(tasks, TaskLifecycle::Running) + how_many(
            tasks,
            TaskLifecycle::Pending,
        ),
        tally_count(tasks, Tally::Idle) == how_many(tasks, TaskLifecycle::Idle),
        tally_count(tasks, Tally::Done) == how_many(tasks, TaskLifecycle::Completed),
        tally_count(tasks, Tally::Failed) == how_many(tasks, TaskLifecycle::Failed),
        tally_count(tasks, Tally::Running) + tally_count(tasks, Tally::Idle) + tally_count(tasks, Tally::Done)
            + tally_count(tasks, Tally::Failed) + how_many(tasks, TaskLifecycle::Cancelled) == tasks.len(),
    decreases tasks.len(),
{
    if tasks.len() > 0 {
        law_summary_counts_every_agent(tasks.drop_last());
    }
}

proof fn lemma_chip_shows(front: Row, sign: Seq<char>, n: nat, style: Style, back: Row)
    requires
        n > 0,
    ensures
        has_text(row_text(front + count_chip(sign, n, style) + back), sign + decimal(n)),
{
    let row = front + count_chip(sign, n, style) + back;
    let at = front.len() as int;
    assert(row[at] == (sign + decimal(n) + " "@, style));
    lemma_has_in_sum(sign + decimal(n), " "@, sign + decimal(n));
    lemma_row_has(row, at, sign + decimal(n));
}

/// The summary shows how many agents run, wait for work, are done and failed, each
/// number behind its sign.
pub proof fn law_summary_shows_the_counts(tasks: Seq<BackgroundTask>, width: nat)
    ensures
        tally_count(tasks, Tally::Running) > 0 ==> has_text(
            row_text(summary_row(tasks, width)),
            "●"@ + decimal(tally_count(tasks, Tally::Running)),
        ),
        tally_count(tasks, Tally::Idle) > 0 ==> has_text(
            row_text(summary_row(tasks, width)),
            "○"@ + decimal(tally_count(tasks, Tally::Idle)),
        ),
        tally_count(tasks, Tally::Done) > 0 ==> has_text(
            row_text(summary_row(tasks, width)),
            "✓"@ + decimal(tally_count(tasks, Tally::Done)),
        ),
        tally_count(tasks, Tally::Failed) > 0 ==> has_text(
            row_text(summary_row(tasks, width)),
            "✗"@ + decimal(tally_count(tasks, Tally::Failed)),
        ),
{
    let head = seq![("agents  "@, Style::in_tone(Tone::TextMuted).made_bold())];
    let (rn, inn, dn, fnn) = (
        tally_count(tasks, Tally::Running),
        tally_count(tasks, Tally::Idle),
        tally_count(tasks, Tally::Done),
        tally_count(tasks, Tally::Failed),
    );
    let (rs, is, ds, fs) = (
        Style::in_tone(Tone::Warning),
        Style::in_tone(Tone::TextMuted),
        Style::in_tone(Tone::Success),
        Style::in_tone(Tone::Error).made_bold(),
    );
    let (r, i, d, f) = (
        count_chip("●"@, rn, rs),
        count_chip("○"@, inn, is),
        count_chip("✓"@, dn, ds),
        count_chip("✗"@, fnn, fs),
    );
    let chips = summary_chips(tasks);
    let row = summary_row(tasks, width);
    let rest = row.skip(chips.len() as int);
    assert(row =~= chips + rest);
    if rn > 0 {
        assert(row =~= head + r + (i + d + f + rest));
        lemma_chip_shows(head, "●"@, rn, rs, i + d + f + rest);
    }
    if inn > 0 {
        assert(row =~= (head + r) + i + (d + f + rest));
        lemma_chip_shows(head + r, "○"@, inn, is, d + f + rest);
    }
    if dn > 0 {
        assert(row =~= (head + r + i) + d + (f + rest));
        lemma_chip_shows(head + r + i, "✓"@, dn, ds, f + rest);
    }
    if fnn > 0 {
        assert(row =~= (head + r + i + d) + f + rest);
        lemma_chip_shows(head + r + i + d, "✗"@, fnn, fs, rest);
    }
}

proof fn lemma_shown_agents(tasks: Seq<BackgroundTask>, now: Instant, k: int)
    requires
        0 <= k < tasks.len(),
        !tasks[k].status.ended() || ended_lately(tasks[k], now),
    ensures
        shown_agents(tasks, now).contains(tasks[k]),
    decreases tasks.len(),
{
    let front = tasks.drop_last();
    if k < front.len() {
        lemma_shown_agents(front, now, k);
        let i = choose|i: int| 0 <= i < shown_agents(front, now).len() && shown_agents(front, now)[i] == tasks[k];
        assert(shown_agents(tasks, now)[i] == tasks[k]);
    } else {
        assert(shown_agents(tasks, now)[shown_agents(front, now).len() as int] == tasks[k]);
    }
}

proof fn lemma_in_fleet_order_has(tasks: Seq<BackgroundTask>, last_active: Option<Seq<char>>, now: Instant, k: int)
    requires
        0 <= k < tasks.len(),
    ensures
        in_fleet_order(tasks, last_active, now).contains((rank_in_fleet(tasks[k], last_active, now), tasks[k])),
        in_fleet_order(tasks, last_active, now).len() == tasks.len(),
{
    let ranked = with_ranks(tasks, last_active, now);
    let order = in_fleet_order(tasks, last_active, now);
    crate::order::law_sorted_is_a_permutation(ranked, fleet_order());
    vstd::seq_lib::to_multiset_contains(ranked, ranked[k]);
    vstd::seq_lib::to_multiset_contains(order, ranked[k]);
    assert(ranked.contains(ranked[k]));
}

/// Every agent has its id in the list of the fleet, once for each agent.
pub proof fn law_fleet_lists_every_agent(tasks: Seq<BackgroundTask>, last_active: Option<Seq<char>>, now: Instant, k: int)
    requires
        0 <= k < tasks.len(),
    ensures
        fleet_ids(tasks, last_active, now).len() == tasks.len(),
        fleet_ids(tasks, last_active, now).contains(tasks[k].task_id@),
{
    lemma_in_fleet_order_has(tasks, last_active, now, k);
    let order = in_fleet_order(tasks, last_active, now);
    let i = choose|i: int|
        0 <= i < order.len() && order[i] == (rank_in_fleet(tasks[k], last_active, now), tasks[k]);
    assert(fleet_ids(tasks, last_active, now)[i] == tasks[k].task_id@);
}

/// Where the fan has room for all agents, each one that is at work or ended lately has
/// its row. Where it has not, it says how many it leaves out.
pub proof fn law_fan_shows_every_agent(
    tasks: Seq<BackgroundTask>,
    last_active: Option<Seq<char>>,
    viewing: Option<Seq<char>>,
    width: nat,
    height: nat,
    now: Instant,
    k: int,
)
    requires
        width >= 20,
        height > 1,
        0 <= k < tasks.len(),
        !tasks[k].status.ended() || ended_lately(tasks[k], now),
    ensures
        ({
            let rows = fan_rows(tasks, last_active, viewing, width, height, now);
            let n = shown_agents(tasks, now).len();
            &&& rows.len() > 0 && rows[0] == summary_row(tasks, width)
            &&& n < height ==> rows.contains(agent_row(tasks[k], last_active, viewing, width, now)) && rows.len()
                == n + 1
            &&& n >= height ==> rows.len() == height && has_text(
                row_text(rows.last()),
                "+"@ + decimal((n - (height - 2)) as nat) + " more"@,
            )
        }),
{
    let shown = shown_agents(tasks, now);
    lemma_shown_agents(tasks, now, k);
    let s = choose|s: int| 0 <= s < shown.len() && shown[s] == tasks[k];
    lemma_in_fleet_order_has(shown, last_active, now, s);
    let order = in_fleet_order(shown, last_active, now);
    let all = agent_rows(order, last_active, viewing, width, now);
    let i = choose|i: int| 0 <= i < order.len() && order[i] == (rank_in_fleet(shown[s], last_active, now), shown[s]);
    let room = (height - 1) as nat;
    let rows = fan_rows(tasks, last_active, viewing, width, height, now);
    let lines = seq![summary_row(tasks, width)] + fan_body(all, room);
    assert(rows =~= lines);
    if shown.len() < height {
        assert(rows[i + 1] == agent_row(tasks[k], last_active, viewing, width, now));
    } else {
        reveal_strlit("  ▾ +");
        reveal_strlit("+");
        reveal_strlit(" more (running shown first)");
        reveal_strlit(" more");
        let n = decimal((all.len() - room + 1) as nat);
        let text = "  ▾ +"@ + n + " more (running shown first)"@;
        let w = "+"@ + n + " more"@;
        assert(text.subrange(4, 4int + w.len()) =~= w);
        assert(crate::slicing::occurs_at(text, w, 4));
        assert(rows.last() == row1(text, Style::in_tone(Tone::TextMuted).made_italic()));
        lemma_row_has(rows.last(), 0, w);
    }
}

} // verus!
