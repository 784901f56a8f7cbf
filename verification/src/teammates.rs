//! The team: its tree, and the panel of all agents.
use vstd::prelude::*;

use crate::background::{agent_at, alive_count, count_alive, find_agent, BackgroundTask, Fleet};
use crate::dispatch::{runner_id_of, teammate_task_id};
use crate::fitting::{shortened, truncate_str};
use crate::order::{lemma_sorted_map, rank_order, sort_stable, sorted, text_before, text_is_before, Ranked};
use crate::pinned::{less, Row};
use crate::roster::{agent_row, fleet_rank_of, rank_in_fleet, roster_row};
use crate::sidebar::TEAM_LEAD_NAME;
use crate::showing::{lemma_has_in_sum, lemma_has_itself, lemma_row_has, row_text, shows};
use crate::slicing::{contains, group_texts, has_text, opt_text};
use crate::styled::{blank_line, blank_row, group_rows, line1, line2, line3, push_lines, row1, row2, row3, rows, span, team_color, teammate_color, Line, Style, Tone};
use crate::text::{cat2, cat3, cat5, count_text, decimal, same_text};
use crate::time::Instant;
use crate::transcript::TaskLifecycle;

verus! {

broadcast use {group_texts, group_rows};

/// A member of the team.
#[derive(Debug)]
pub struct Teammate {
    pub agent_id: String,
    pub name: String,
    pub color: Option<String>,
    /// There is a handle by which the member can be stopped.
    pub has_handle: bool,
}

/// A member in the order of names.
pub struct NamedMate<'a> {
    pub mate: &'a Teammate,
}

/// Names decide.
pub open spec fn by_name() -> spec_fn(Teammate, Teammate) -> bool {
    |a: Teammate, b: Teammate| text_before(a.name@, b.name@)
}

impl<'a> Ranked for NamedMate<'a> {
    open spec fn before(&self, other: &Self) -> bool {
        by_name()(*self.mate, *other.mate)
    }

    fn is_before(&self, other: &Self) -> (r: bool) {
        text_is_before(self.mate.name.as_str(), other.mate.name.as_str())
    }
}

/// What a list of members shows.
pub open spec fn mates_of<'a>(v: Seq<NamedMate<'a>>) -> Seq<Teammate> {
    v.map_values(|m: NamedMate<'a>| *m.mate)
}

/// The members but for the leader.
pub open spec fn without_lead(mates: Seq<Teammate>) -> Seq<Teammate>
    decreases mates.len(),
{
    if mates.len() == 0 {
        mates
    } else if mates.last().name@ == TEAM_LEAD_NAME@ {
        without_lead(mates.drop_last())
    } else {
        without_lead(mates.drop_last()).push(mates.last())
    }
}

fn sorted_mates<'a>(mates: &'a Vec<Teammate>) -> (r: Vec<NamedMate<'a>>)
    ensures
        mates_of(r@) == sorted(mates@, by_name()),
{
    let mut out: Vec<NamedMate<'a>> = Vec::new();
    let mut i: usize = 0;
    assert(mates_of(out@) =~= mates@.take(0));
    while i < mates.len()
        invariant
            i <= mates@.len(),
            mates_of(out@) == mates@.take(i as int),
        decreases mates@.len() - i,
    {
        let ghost before = out@;
        out.push(NamedMate { mate: &mates[i] });
        assert(mates_of(out@) =~= mates_of(before).push(mates@[i as int]));
        assert(mates@.take(i + 1) =~= mates@.take(i as int).push(mates@[i as int]));
        i += 1;
    }
    assert(mates@.take(i as int) =~= mates@);
    proof {
        lemma_sorted_map(out@, |m: NamedMate<'a>| *m.mate, rank_order::<NamedMate<'a>>(), by_name());
    }
    sort_stable(out)
}

fn members_of<'a>(mates: &'a Vec<Teammate>) -> (r: Vec<NamedMate<'a>>)
    ensures
        mates_of(r@) == without_lead(sorted(mates@, by_name())),
{
    let ordered = sorted_mates(mates);
    let ghost all = mates_of(ordered@);
    let mut out: Vec<NamedMate<'a>> = Vec::new();
    let mut i: usize = 0;
    assert(mates_of(out@) =~= without_lead(all.take(0)));
    while i < ordered.len()
        invariant
            i <= ordered@.len(),
            all == mates_of(ordered@),
            mates_of(out@) == without_lead(all.take(i as int)),
        decreases ordered@.len() - i,
    {
        assert(all.take(i + 1).drop_last() =~= all.take(i as int));
        assert(all.take(i + 1).last() == *ordered@[i as int].mate);
        if !same_text(ordered[i].mate.name.as_str(), TEAM_LEAD_NAME) {
            let ghost before = out@;
            out.push(NamedMate { mate: ordered[i].mate });
            assert(mates_of(out@) =~= mates_of(before).push(all[i as int]));
        }
        i += 1;
    }
    assert(all.take(i as int) =~= all);
    out
}

// ── the tree ────────────────────────────────────────────────────────────

/// The first agent whose id holds the name.
pub open spec fn agent_named(tasks: Seq<BackgroundTask>, name: Seq<char>, from: int) -> Option<int>
    decreases tasks.len() - from,
{
    if from < 0 || from >= tasks.len() {
        None
    } else if has_text(tasks[from].task_id@, name) {
        Some(from)
    } else {
        agent_named(tasks, name, from + 1)
    }
}

fn find_named<'a>(tasks: &'a Vec<BackgroundTask>, name: &str) -> (r: Option<&'a BackgroundTask>)
    ensures
        match agent_named(tasks@, name@, 0) {
            Some(i) => 0 <= i < tasks@.len() && r == Some(&tasks@[i]),
            None => r is None,
        },
{
    let mut i: usize = 0;
    while i < tasks.len()
        invariant
            i <= tasks@.len(),
            agent_named(tasks@, name@, 0) == agent_named(tasks@, name@, i as int),
        decreases tasks@.len() - i,
    {
        if contains(tasks[i].task_id.as_str(), name) {
            return Some(&tasks[i]);
        }
        i += 1;
    }
    None
}

/// What a member is doing.
pub open spec fn doing(bt: Option<BackgroundTask>) -> Seq<char> {
    match bt {
        Some(t) => match t.status {
            TaskLifecycle::Idle => ": Idle"@,
            TaskLifecycle::Completed => ": Done"@,
            TaskLifecycle::Failed => ": Failed"@,
            _ => match opt_text(t.last_tool) {
                Some(tool) => ": "@ + tool + "…"@,
                None => ": Working…"@,
            },
        },
        None => ": Working…"@,
    }
}

fn doing_text(bt: Option<&BackgroundTask>) -> (r: String)
    ensures
        r@ == doing(match bt {
            Some(t) => Some(*t),
            None => None,
        }),
{
    match bt {
        Some(t) => match t.status {
            TaskLifecycle::Idle => ": Idle".to_owned(),
            TaskLifecycle::Completed => ": Done".to_owned(),
            TaskLifecycle::Failed => ": Failed".to_owned(),
            _ => match &t.last_tool {
                Some(tool) => cat3(": ", tool.as_str(), "…"),
                None => ": Working…".to_owned(),
            },
        },
        None => ": Working…".to_owned(),
    }
}

/// The row of a member in the tree.
pub open spec fn branch_row(m: Teammate, last: bool, tasks: Seq<BackgroundTask>) -> Row {
    let connector = if last {
        "   └─ "@
    } else {
        "   ├─ "@
    };
    let bt = match agent_named(tasks, m.name@, 0) {
        Some(i) => Some(tasks[i]),
        None => None,
    };
    row3(
        (connector, Style::in_tone(Tone::TextMuted)),
        (m.name@, Style::in_tone(Tone::Team(team_color(opt_text(m.color)))).made_bold()),
        (doing(bt), Style::in_tone(Tone::TextMuted)),
    )
}

fn branch_line(m: &Teammate, last: bool, tasks: &Vec<BackgroundTask>) -> (r: Line)
    ensures
        r@ == branch_row(*m, last, tasks@),
{
    let connector = if last {
        "   └─ "
    } else {
        "   ├─ "
    };
    line3(
        span(connector.to_owned(), Style::fg(Tone::TextMuted)),
        span(m.name.clone(), Style::fg(Tone::Team(teammate_color(&m.color))).bold()),
        span(doing_text(find_named(tasks, m.name.as_str())), Style::fg(Tone::TextMuted)),
    )
}

/// The row of the leader.
pub open spec fn leader_row() -> Row {
    row2(
        ("   ╒═ "@, Style::in_tone(Tone::TextMuted)),
        ("team-lead"@, Style::in_tone(Tone::Accent).made_bold()),
    )
}

/// The tree of the team in an area of that size.
pub open spec fn tree_rows(mates: Seq<Teammate>, tasks: Seq<BackgroundTask>, width: nat, height: nat) -> Seq<Row> {
    let members = without_lead(sorted(mates, by_name()));
    if height == 0 || width < 20 || members.len() == 0 {
        Seq::empty()
    } else {
        let all = seq![leader_row()] + Seq::new(
            members.len(),
            |i: int| branch_row(members[i], i == members.len() - 1, tasks),
        );
        if all.len() > height {
            all.take(height as int)
        } else {
            all
        }
    }
}

/// The tree of the team: the leader, then the members by name with what they
/// are doing.
pub fn render_teammate_tree(mates: &Vec<Teammate>, tasks: &Vec<BackgroundTask>, width: u16, height: u16) -> (r: Vec<
    Line,
>)
    ensures
        rows(r@) == tree_rows(mates@, tasks@, width as nat, height as nat),
{
    let mut out: Vec<Line> = Vec::new();
    if height == 0 || width < 20 {
        return out;
    }
    let members = members_of(mates);
    let ghost models = mates_of(members@);
    assert(models.len() == members@.len());
    if members.len() == 0 {
        return out;
    }
    let ghost all = Seq::new(
        models.len(),
        |i: int| branch_row(models[i], i == models.len() - 1, tasks@),
    );
    out.push(
        line2(
            span("   ╒═ ".to_owned(), Style::fg(Tone::TextMuted)),
            span("team-lead".to_owned(), Style::fg(Tone::Accent).bold()),
        ),
    );
    let mut i: usize = 0;
    assert(rows(out@) =~= seq![leader_row()] + all.take(0));
    while i < members.len()
        invariant
            i <= members@.len(),
            models == mates_of(members@),
            models.len() == members@.len(),
            all == Seq::new(
                models.len(),
                |i: int| branch_row(models[i], i == models.len() - 1, tasks@),
            ),
            rows(out@) == seq![leader_row()] + all.take(i as int),
        decreases members@.len() - i,
    {
        let last = i == members.len() - 1;
        out.push(branch_line(members[i].mate, last, tasks));
        assert(seq![leader_row()] + all.take(i + 1) =~= (seq![leader_row()] + all.take(i as int)).push(
            all[i as int],
        ));
        i += 1;
    }
    assert(all.take(i as int) =~= all);
    assert(rows(out@).len() == out@.len());
    if out.len() > height as usize {
        let ghost before = rows(out@);
        out.truncate(height as usize);
        assert(rows(out@) =~= before.take(height as int));
    }
    out
}

// ── the panel ───────────────────────────────────────────────────────────

/// An agent with its rank, in the order of the panel.
pub struct PanelAgent<'a> {
    pub rank: u8,
    pub task: &'a BackgroundTask,
}

/// What an agent of the panel shows.
pub open spec fn panel_model<'a>(e: PanelAgent<'a>) -> (u8, BackgroundTask) {
    (e.rank, *e.task)
}

/// The rank decides, then who started first.
pub open spec fn panel_order() -> spec_fn((u8, BackgroundTask), (u8, BackgroundTask)) -> bool {
    |a: (u8, BackgroundTask), b: (u8, BackgroundTask)|
        if a.0 != b.0 {
            a.0 < b.0
        } else {
            a.1.started_at@ < b.1.started_at@
        }
}

impl<'a> Ranked for PanelAgent<'a> {
    open spec fn before(&self, other: &Self) -> bool {
        panel_order()(panel_model(*self), panel_model(*other))
    }

    fn is_before(&self, other: &Self) -> (r: bool) {
        if self.rank != other.rank {
            self.rank < other.rank
        } else {
            self.task.started_at.is_before(&other.task.started_at)
        }
    }
}

/// What a list of the panel's agents shows.
pub open spec fn panel_models<'a>(v: Seq<PanelAgent<'a>>) -> Seq<(u8, BackgroundTask)> {
    v.map_values(|e: PanelAgent<'a>| panel_model(e))
}

/// The agents in the order of the panel.
pub open spec fn in_panel_order(tasks: Seq<BackgroundTask>, last_active: Option<Seq<char>>, now: Instant) -> Seq<
    (u8, BackgroundTask),
> {
    sorted(
        tasks.map_values(|t: BackgroundTask| (rank_in_fleet(t, last_active, now), t)),
        panel_order(),
    )
}

fn panel_agents<'a>(fleet: &'a Fleet, now: Instant) -> (r: Vec<PanelAgent<'a>>)
    ensures
        panel_models(r@) == in_panel_order(fleet.tasks@, opt_text(fleet.last_active), now),
{
    let tasks = &fleet.tasks;
    let ghost all = tasks@.map_values(
        |t: BackgroundTask| (rank_in_fleet(t, opt_text(fleet.last_active), now), t),
    );
    let mut out: Vec<PanelAgent<'a>> = Vec::new();
    let mut i: usize = 0;
    assert(panel_models(out@) =~= all.take(0));
    while i < tasks.len()
        invariant
            tasks == fleet.tasks,
            i <= tasks@.len(),
            all == tasks@.map_values(
                |t: BackgroundTask| (rank_in_fleet(t, opt_text(fleet.last_active), now), t),
            ),
            panel_models(out@) == all.take(i as int),
        decreases tasks@.len() - i,
    {
        let e = PanelAgent { rank: fleet_rank_of(&tasks[i], &fleet.last_active, now), task: &tasks[i] };
        let ghost before = out@;
        out.push(e);
        assert(panel_models(out@) =~= panel_models(before).push(panel_model(e)));
        assert(all.take(i + 1) =~= all.take(i as int).push(all[i as int]));
        i += 1;
    }
    assert(all.take(i as int) =~= all);
    proof {
        lemma_sorted_map(
            out@,
            |e: PanelAgent<'a>| panel_model(e),
            rank_order::<PanelAgent<'a>>(),
            panel_order(),
        );
    }
    sort_stable(out)
}

/// The title of the panel.
pub open spec fn panel_title(tasks: Seq<BackgroundTask>) -> Seq<char> {
    " Agents · "@ + decimal(alive_count(tasks)) + " running, "@ + decimal(
        (tasks.len() - alive_count(tasks)) as nat,
    ) + " completed "@
}

/// The title of the panel.
pub fn teammates_title(tasks: &Vec<BackgroundTask>) -> (r: String)
    ensures
        r@ == panel_title(tasks@),
{
    let alive: usize = count_alive(tasks);
    cat5(
        " Agents · ",
        count_text(alive).as_str(),
        " running, ",
        count_text(tasks.len() - alive).as_str(),
        " completed ",
    )
}

/// What the panel shows where there is nothing to show.
pub open spec fn nobody_rows() -> Seq<Row> {
    seq![
        blank_row(),
        row1("  No agents running"@, Style::in_tone(Tone::TextMuted).made_bold()),
        blank_row(),
        row1(
            "  Agents appear here when you fire subagents via the Task tool"@,
            Style::in_tone(Tone::TextMuted),
        ),
        row1("  or use /background to dispatch work."@, Style::in_tone(Tone::TextMuted)),
    ]
}

fn nobody_lines() -> (r: Vec<Line>)
    ensures
        rows(r@) == nobody_rows(),
{
    let mut out: Vec<Line> = Vec::new();
    out.push(blank_line());
    out.push(line1("  No agents running".to_owned(), Style::fg(Tone::TextMuted).bold()));
    out.push(blank_line());
    out.push(
        line1(
            "  Agents appear here when you fire subagents via the Task tool".to_owned(),
            Style::fg(Tone::TextMuted),
        ),
    );
    out.push(line1("  or use /background to dispatch work.".to_owned(), Style::fg(Tone::TextMuted)));
    assert(rows(out@) =~= nobody_rows());
    out
}

/// The rows of agents, each with its last tool below it, as long as there is
/// room.
pub open spec fn panel_agent_rows(
    agents: Seq<(u8, BackgroundTask)>,
    last_active: Option<Seq<char>>,
    viewing: Option<Seq<char>>,
    width: nat,
    height: nat,
    now: Instant,
) -> Seq<Row>
    decreases agents.len(),
{
    if agents.len() == 0 {
        Seq::empty()
    } else {
        let before = panel_agent_rows(agents.drop_last(), last_active, viewing, width, height, now);
        if agents.len() > 1 && before.len() >= height {
            before
        } else {
            let bt = agents.last().1;
            let with_agent = before.push(agent_row(bt, last_active, viewing, width, now));
            match opt_text(bt.last_tool) {
                Some(tool) if with_agent.len() < height => with_agent.push(
                    row1(shortened("  › "@ + tool, less(width, 2)), Style::in_tone(Tone::TextMuted)),
                ),
                _ => with_agent,
            }
        }
    }
}

fn panel_agent_lines(fleet: &Fleet, width: u16, height: u16, now: Instant) -> (r: Vec<Line>)
    ensures
        rows(r@) == panel_agent_rows(
            in_panel_order(fleet.tasks@, opt_text(fleet.last_active), now),
            opt_text(fleet.last_active),
            opt_text(fleet.viewing),
            width as nat,
            height as nat,
            now,
        ),
{
    let agents = panel_agents(fleet, now);
    let ghost all = panel_models(agents@);
    let ghost active = opt_text(fleet.last_active);
    let ghost viewing = opt_text(fleet.viewing);
    let mut out: Vec<Line> = Vec::new();
    let mut i: usize = 0;
    assert(rows(out@) =~= panel_agent_rows(
        all.take(0),
        active,
        viewing,
        width as nat,
        height as nat,
        now,
    ));
    while i < agents.len()
        invariant
            i <= agents@.len(),
            all == panel_models(agents@),
            active == opt_text(fleet.last_active),
            viewing == opt_text(fleet.viewing),
            rows(out@).len() == out@.len(),
            rows(out@) == panel_agent_rows(
                all.take(i as int),
                active,
                viewing,
                width as nat,
                height as nat,
                now,
            ),
        decreases agents@.len() - i,
    {
        assert(all.take(i + 1).drop_last() =~= all.take(i as int));
        assert(all.take(i + 1).last() == panel_model(agents@[i as int]));
        if i == 0 || out.len() < height as usize {
            let bt = agents[i].task;
            out.push(roster_row(bt, &fleet.last_active, &fleet.viewing, width as usize, now));
            assert(rows(out@).len() == out@.len());
            if let Some(tool) = &bt.last_tool {
                if out.len() < height as usize {
                    out.push(
                        line1(
                            truncate_str(
                                cat2("  › ", tool.as_str()).as_str(),
                                (width as usize).saturating_sub(2),
                            ),
                            Style::fg(Tone::TextMuted),
                        ),
                    );
                }
            }
        }
        i += 1;
    }
    assert(all.take(i as int) =~= all);
    out
}

/// How a member is described: its background task tells, and where it has none,
/// whether there is a handle to stop it by.
pub open spec fn member_status(m: Teammate, tasks: Seq<BackgroundTask>) -> (Seq<char>, bool) {
    match agent_at(tasks, runner_id_of(m.agent_id@), 0) {
        Some(i) => match tasks[i].status {
            TaskLifecycle::Running | TaskLifecycle::Pending => ("running"@, true),
            TaskLifecycle::Idle => ("idle"@, false),
            TaskLifecycle::Completed => ("completed"@, false),
            TaskLifecycle::Failed => ("failed"@, false),
            TaskLifecycle::Cancelled => ("cancelled"@, false),
        },
        None => if m.has_handle {
            ("running"@, true)
        } else {
            ("idle"@, false)
        },
    }
}

fn status_of_member(m: &Teammate, tasks: &Vec<BackgroundTask>) -> (r: (&'static str, bool))
    ensures
        (r.0@, r.1) == member_status(*m, tasks@),
{
    match find_agent(tasks, teammate_task_id(m.agent_id.as_str()).as_str()) {
        Some(bt) => match bt.status {
            TaskLifecycle::Running | TaskLifecycle::Pending => ("running", true),
            TaskLifecycle::Idle => ("idle", false),
            TaskLifecycle::Completed => ("completed", false),
            TaskLifecycle::Failed => ("failed", false),
            TaskLifecycle::Cancelled => ("cancelled", false),
        },
        None => if m.has_handle {
            ("running", true)
        } else {
            ("idle", false)
        },
    }
}

/// The row of a member in the panel.
pub open spec fn member_row(m: Teammate, tasks: Seq<BackgroundTask>) -> Row {
    let (status, active) = member_status(m, tasks);
    if active {
        row3(
            ("● "@, Style::in_tone(Tone::Accent)),
            (m.name@, Style::in_tone(Tone::TextPrimary).made_bold()),
            ("  "@ + status, Style::in_tone(Tone::TextMuted)),
        )
    } else {
        row3(
            ("○ "@, Style::in_tone(Tone::TextMuted)),
            (m.name@, Style::in_tone(Tone::TextMuted)),
            ("  "@ + status, Style::in_tone(Tone::TextMuted)),
        )
    }
}

fn member_line(m: &Teammate, tasks: &Vec<BackgroundTask>) -> (r: Line)
    ensures
        r@ == member_row(*m, tasks@),
{
    let (status, active) = status_of_member(m, tasks);
    let label = span(cat2("  ", status), Style::fg(Tone::TextMuted));
    if active {
        line3(
            span("● ".to_owned(), Style::fg(Tone::Accent)),
            span(m.name.clone(), Style::fg(Tone::TextPrimary).bold()),
            label,
        )
    } else {
        line3(
            span("○ ".to_owned(), Style::fg(Tone::TextMuted)),
            span(m.name.clone(), Style::fg(Tone::TextMuted)),
            label,
        )
    }
}

/// The section of the team below `used` rows, in order and without regard to
/// the room.
pub open spec fn team_section(mates: Seq<Teammate>, tasks: Seq<BackgroundTask>, used: nat) -> Seq<Row> {
    let gap = if used > 0 {
        seq![blank_row()]
    } else {
        Seq::empty()
    };
    gap + seq![row1("Team:"@, Style::in_tone(Tone::TextSecondary).made_bold())] + sorted(
        mates,
        by_name(),
    ).map_values(|m: Teammate| member_row(m, tasks))
}

fn team_lines(mates: &Vec<Teammate>, tasks: &Vec<BackgroundTask>, used: usize) -> (r: Vec<Line>)
    ensures
        rows(r@) == team_section(mates@, tasks@, used as nat),
{
    let mut out: Vec<Line> = Vec::new();
    if used > 0 {
        out.push(blank_line());
    }
    out.push(line1("Team:".to_owned(), Style::fg(Tone::TextSecondary).bold()));
    let ghost head = rows(out@);
    let ordered = sorted_mates(mates);
    let ghost all = mates_of(ordered@).map_values(|m: Teammate| member_row(m, tasks@));
    let mut i: usize = 0;
    assert(rows(out@) =~= head + all.take(0));
    while i < ordered.len()
        invariant
            i <= ordered@.len(),
            all == mates_of(ordered@).map_values(|m: Teammate| member_row(m, tasks@)),
            rows(out@) == head + all.take(i as int),
        decreases ordered@.len() - i,
    {
        out.push(member_line(ordered[i].mate, tasks));
        assert(head + all.take(i + 1) =~= (head + all.take(i as int)).push(all[i as int]));
        i += 1;
    }
    assert(all.take(i as int) =~= all);
    assert(rows(out@) =~= team_section(mates@, tasks@, used as nat));
    out
}

/// The rows of the panel, `width` columns by `height` rows inside.
pub open spec fn panel_rows(
    tasks: Seq<BackgroundTask>,
    last_active: Option<Seq<char>>,
    viewing: Option<Seq<char>>,
    team_active: bool,
    mates: Seq<Teammate>,
    width: nat,
    height: nat,
    now: Instant,
) -> Seq<Row> {
    if tasks.len() == 0 && !team_active {
        nobody_rows()
    } else {
        let agents = panel_agent_rows(
            in_panel_order(tasks, last_active, now),
            last_active,
            viewing,
            width,
            height,
            now,
        );
        if team_active && mates.len() > 0 {
            let team = team_section(mates, tasks, agents.len());
            let room = less(height, agents.len());
            if team.len() > room {
                agents + team.take(room as int)
            } else {
                agents + team
            }
        } else {
            agents
        }
    }
}

/// The panel of all agents: the agents in their order, each with its last tool,
/// then the members of the team by name.
pub fn teammates_panel(
    fleet: &Fleet,
    team_active: bool,
    mates: &Vec<Teammate>,
    width: u16,
    height: u16,
    now: Instant,
) -> (r: Vec<Line>)
    ensures
        rows(r@) == panel_rows(
            fleet.tasks@,
            opt_text(fleet.last_active),
            opt_text(fleet.viewing),
            team_active,
            mates@,
            width as nat,
            height as nat,
            now,
        ),
{
    if fleet.tasks.len() == 0 && !team_active {
        return nobody_lines();
    }
    let mut out = panel_agent_lines(fleet, width, height, now);
    assert(rows(out@).len() == out@.len());
    if team_active && mates.len() > 0 {
        let mut team = team_lines(mates, &fleet.tasks, out.len());
        assert(rows(team@).len() == team@.len());
        let room: usize = (height as usize).saturating_sub(out.len());
        if team.len() > room {
            let ghost before = rows(team@);
            team.truncate(room);
            assert(rows(team@) =~= before.take(room as int));
        }
        push_lines(&mut out, team);
    }
    out
}

/// A member whose background task has ended is never shown as running, whatever
/// handle there is.
pub proof fn law_ended_member_is_not_running(m: Teammate, tasks: Seq<BackgroundTask>, i: int)
    requires
        agent_at(tasks, runner_id_of(m.agent_id@), 0) == Some(i),
        tasks[i].status.ended(),
    ensures
        !member_status(m, tasks).1,
        member_status(m, tasks).0 != "running"@,
{
    reveal_strlit("running");
    reveal_strlit("completed");
    reveal_strlit("failed");
    reveal_strlit("cancelled");
    assert("running"@[0] == 'r');
}

proof fn lemma_without_lead_has(mates: Seq<Teammate>, k: int)
    requires
        0 <= k < mates.len(),
        mates[k].name@ != TEAM_LEAD_NAME@,
    ensures
        without_lead(mates).contains(mates[k]),
    decreases mates.len(),
{
    let front = mates.drop_last();
    if k < front.len() {
        lemma_without_lead_has(front, k);
        let i = choose|i: int| 0 <= i < without_lead(front).len() && without_lead(front)[i] == mates[k];
        assert(without_lead(mates)[i] == mates[k]);
    } else {
        assert(without_lead(mates)[without_lead(front).len() as int] == mates[k]);
    }
}

proof fn lemma_without_lead_len(mates: Seq<Teammate>)
    ensures
        without_lead(mates).len() <= mates.len(),
    decreases mates.len(),
{
    if mates.len() > 0 {
        lemma_without_lead_len(mates.drop_last());
    }
}

proof fn lemma_sorted_mates_has(mates: Seq<Teammate>, k: int)
    requires
        0 <= k < mates.len(),
    ensures
        sorted(mates, by_name()).contains(mates[k]),
        sorted(mates, by_name()).len() == mates.len(),
{
    crate::order::law_sorted_is_a_permutation(mates, by_name());
    vstd::seq_lib::to_multiset_contains(mates, mates[k]);
    vstd::seq_lib::to_multiset_contains(sorted(mates, by_name()), mates[k]);
    assert(mates.contains(mates[k]));
}

/// The branch of a teammate shows its name, and how its task stands: the tool that it
/// uses while it works, and its end once it has ended.
pub proof fn law_branches_tell_what_is_done(m: Teammate, last: bool, tasks: Seq<BackgroundTask>, i: int)
    requires
        agent_named(tasks, m.name@, 0) == Some(i),
    ensures
        has_text(row_text(branch_row(m, last, tasks)), m.name@),
        tasks[i].status == TaskLifecycle::Running && tasks[i].last_tool is Some ==> has_text(
            row_text(branch_row(m, last, tasks)),
            tasks[i].last_tool->0@,
        ),
        tasks[i].status == TaskLifecycle::Completed ==> branch_row(m, last, tasks)[2].0 == ": Done"@,
        tasks[i].status == TaskLifecycle::Failed ==> branch_row(m, last, tasks)[2].0 == ": Failed"@,
        tasks[i].status == TaskLifecycle::Idle ==> branch_row(m, last, tasks)[2].0 == ": Idle"@,
{
    let row = branch_row(m, last, tasks);
    lemma_has_itself(m.name@);
    lemma_row_has(row, 1, m.name@);
    if tasks[i].status == TaskLifecycle::Running && tasks[i].last_tool is Some {
        let tool = tasks[i].last_tool->0@;
        lemma_has_in_sum(": "@, tool, tool);
        lemma_has_in_sum(": "@ + tool, "…"@, tool);
        lemma_row_has(row, 2, tool);
    }
}

/// Where the tree is high and wide enough, every teammate but the lead has a branch in
/// it, under the row of the lead.
pub proof fn law_every_teammate_has_a_branch(
    mates: Seq<Teammate>,
    tasks: Seq<BackgroundTask>,
    width: nat,
    height: nat,
    k: int,
)
    requires
        0 <= k < mates.len(),
        mates[k].name@ != TEAM_LEAD_NAME@,
        width >= 20,
        height > mates.len(),
    ensures
        tree_rows(mates, tasks, width, height).len() > 1,
        tree_rows(mates, tasks, width, height)[0] == leader_row(),
        shows(tree_rows(mates, tasks, width, height), mates[k].name@),
{
    let all = sorted(mates, by_name());
    let members = without_lead(all);
    lemma_sorted_mates_has(mates, k);
    let i = choose|i: int| 0 <= i < all.len() && all[i] == mates[k];
    lemma_without_lead_has(all, i);
    lemma_without_lead_len(all);
    let j = choose|j: int| 0 <= j < members.len() && members[j] == mates[k];
    let rows = tree_rows(mates, tasks, width, height);
    let row = branch_row(members[j], j == members.len() - 1, tasks);
    assert(rows[j + 1] == row);
    lemma_has_itself(mates[k].name@);
    lemma_row_has(row, 1, mates[k].name@);
}

/// A member's row shows its name and a filled sign exactly while its task runs or waits;
/// a member without a task counts as running while it can be stopped.
pub proof fn law_member_rows_tell_their_state(m: Teammate, tasks: Seq<BackgroundTask>)
    ensures
        has_text(row_text(member_row(m, tasks)), m.name@),
        has_text(row_text(member_row(m, tasks)), member_status(m, tasks).0),
        match agent_at(tasks, runner_id_of(m.agent_id@), 0) {
            Some(i) => (member_row(m, tasks)[0].0 == "● "@) == (tasks[i].status == TaskLifecycle::Running
                || tasks[i].status == TaskLifecycle::Pending),
            None => (member_row(m, tasks)[0].0 == "● "@) == m.has_handle,
        },
        member_row(m, tasks)[0].0 == "● "@ ==> member_status(m, tasks).0 == "running"@,
{
    reveal_strlit("● ");
    reveal_strlit("○ ");
    assert("● "@[0] != "○ "@[0]);
    let row = member_row(m, tasks);
    let status = member_status(m, tasks).0;
    lemma_has_itself(m.name@);
    lemma_row_has(row, 1, m.name@);
    lemma_has_in_sum("  "@, status, status);
    lemma_row_has(row, 2, status);
}

proof fn lemma_panel_agent_rows(
    agents: Seq<(u8, BackgroundTask)>,
    last_active: Option<Seq<char>>,
    viewing: Option<Seq<char>>,
    width: nat,
    height: nat,
    now: Instant,
    k: int,
)
    requires
        0 <= k < agents.len(),
        height >= 2 * agents.len(),
    ensures
        ({
            let rows = panel_agent_rows(agents, last_active, viewing, width, height, now);
            &&& rows.contains(agent_row(agents[k].1, last_active, viewing, width, now))
            &&& agents[k].1.last_tool is Some ==> rows.contains(
                row1(
                    shortened("  › "@ + agents[k].1.last_tool->0@, less(width, 2)),
                    Style::in_tone(Tone::TextMuted),
                ),
            )
        }),
    decreases agents.len(),
{
    let front = agents.drop_last();
    let before = panel_agent_rows(front, last_active, viewing, width, height, now);
    let rows = panel_agent_rows(agents, last_active, viewing, width, height, now);
    lemma_panel_len(front, last_active, viewing, width, height, now);
    if k < front.len() {
        lemma_panel_agent_rows(front, last_active, viewing, width, height, now, k);
        let row = agent_row(agents[k].1, last_active, viewing, width, now);
        let i = choose|i: int| 0 <= i < before.len() && before[i] == row;
        assert(rows[i] == row);
        if agents[k].1.last_tool is Some {
            let tool = row1(
                shortened("  › "@ + agents[k].1.last_tool->0@, less(width, 2)),
                Style::in_tone(Tone::TextMuted),
            );
            let j = choose|j: int| 0 <= j < before.len() && before[j] == tool;
            assert(rows[j] == tool);
        }
    } else {
        assert(rows[before.len() as int] == agent_row(agents[k].1, last_active, viewing, width, now));
        if agents[k].1.last_tool is Some {
            assert(rows[before.len() + 1int] == row1(
                shortened("  › "@ + agents[k].1.last_tool->0@, less(width, 2)),
                Style::in_tone(Tone::TextMuted),
            ));
        }
    }
}

proof fn lemma_panel_len(
    agents: Seq<(u8, BackgroundTask)>,
    last_active: Option<Seq<char>>,
    viewing: Option<Seq<char>>,
    width: nat,
    height: nat,
    now: Instant,
)
    ensures
        panel_agent_rows(agents, last_active, viewing, width, height, now).len() <= 2 * agents.len(),
    decreases agents.len(),
{
    if agents.len() > 0 {
        lemma_panel_len(agents.drop_last(), last_active, viewing, width, height, now);
    }
}

/// Where the panel is high enough, every agent has its row in it, whatever its state,
/// and its last tool below; and every teammate is named where a team is at work.
pub proof fn law_panel_shows_every_agent(
    tasks: Seq<BackgroundTask>,
    last_active: Option<Seq<char>>,
    viewing: Option<Seq<char>>,
    team_active: bool,
    mates: Seq<Teammate>,
    width: nat,
    height: nat,
    now: Instant,
    k: int,
    m: int,
)
    requires
        0 <= k < tasks.len(),
        height >= 2 * tasks.len() + mates.len() + 2,
    ensures
        ({
            let rows = panel_rows(tasks, last_active, viewing, team_active, mates, width, height, now);
            &&& rows.contains(agent_row(tasks[k], last_active, viewing, width, now))
            &&& tasks[k].last_tool is Some ==> rows.contains(
                row1(
                    shortened("  › "@ + tasks[k].last_tool->0@, less(width, 2)),
                    Style::in_tone(Tone::TextMuted),
                ),
            )
            &&& team_active && 0 <= m < mates.len() ==> rows.contains(member_row(mates[m], tasks))
        }),
{
    let ranked = tasks.map_values(|t: BackgroundTask| (rank_in_fleet(t, last_active, now), t));
    let order = in_panel_order(tasks, last_active, now);
    crate::order::law_sorted_is_a_permutation(ranked, panel_order());
    vstd::seq_lib::to_multiset_contains(ranked, ranked[k]);
    vstd::seq_lib::to_multiset_contains(order, ranked[k]);
    assert(ranked.contains(ranked[k]));
    let o = choose|o: int| 0 <= o < order.len() && order[o] == ranked[k];
    lemma_panel_agent_rows(order, last_active, viewing, width, height, now, o);
    lemma_panel_len(order, last_active, viewing, width, height, now);
    let agents = panel_agent_rows(order, last_active, viewing, width, height, now);
    let rows = panel_rows(tasks, last_active, viewing, team_active, mates, width, height, now);
    let row = agent_row(tasks[k], last_active, viewing, width, now);
    let i = choose|i: int| 0 <= i < agents.len() && agents[i] == row;
    assert(rows[i] == row);
    if tasks[k].last_tool is Some {
        let tool = row1(
            shortened("  › "@ + tasks[k].last_tool->0@, less(width, 2)),
            Style::in_tone(Tone::TextMuted),
        );
        let j = choose|j: int| 0 <= j < agents.len() && agents[j] == tool;
        assert(rows[j] == tool);
    }
    if team_active && 0 <= m < mates.len() {
        lemma_sorted_mates_has(mates, m);
        let named = sorted(mates, by_name());
        let s = choose|s: int| 0 <= s < named.len() && named[s] == mates[m];
        let team = team_section(mates, tasks, agents.len());
        assert(team.len() == mates.len() + 2);
        assert(team[s + 2] == member_row(mates[m], tasks));
        assert(rows[agents.len() + s + 2] == member_row(mates[m], tasks));
    }
}

/// The title of the panel counts every agent once: as running while it is alive, as
/// completed once it has ended.
pub proof fn law_title_counts_every_agent(tasks: Seq<BackgroundTask>)
    ensures
        alive_count(tasks) <= tasks.len(),
        has_text(panel_title(tasks), decimal(alive_count(tasks)) + " running"@),
        has_text(panel_title(tasks), decimal((tasks.len() - alive_count(tasks)) as nat) + " completed"@),
{
    if tasks.len() > 0 {
        crate::background::law_the_living_are_counted(tasks, tasks[0]);
    }
    reveal_strlit(" Agents · ");
    reveal_strlit(" running, ");
    reveal_strlit(" running");
    reveal_strlit(" completed ");
    reveal_strlit(" completed");
    let a = decimal(alive_count(tasks));
    let c = decimal((tasks.len() - alive_count(tasks)) as nat);
    let title = panel_title(tasks);
    let first = a + " running"@;
    assert(title.subrange(10, 10int + first.len()) =~= first);
    assert(crate::slicing::occurs_at(title, first, 10));
    let second = c + " completed"@;
    let at = 10 + a.len() + 10;
    assert(title.subrange(at as int, (at + second.len()) as int) =~= second);
    assert(crate::slicing::occurs_at(title, second, at as int));
}

/// The panel shows the agents by rank, and those of one rank by when they started.
pub proof fn law_panel_is_in_order(
    tasks: Seq<BackgroundTask>,
    last_active: Option<Seq<char>>,
    now: Instant,
    i: int,
    j: int,
)
    requires
        0 <= i < j < in_panel_order(tasks, last_active, now).len(),
    ensures
        ({
            let order = in_panel_order(tasks, last_active, now);
            &&& order.len() == tasks.len()
            &&& order[i].0 <= order[j].0
            &&& order[i].0 == order[j].0 ==> order[i].1.started_at@ <= order[j].1.started_at@
        }),
{
    let ranked = tasks.map_values(|t: BackgroundTask| (rank_in_fleet(t, last_active, now), t));
    crate::order::law_sorted_is_a_permutation(ranked, panel_order());
    crate::order::law_sorted_is_in_order(ranked, panel_order());
}

/// The last branch of the tree ends it, and every other goes on.
pub proof fn law_the_last_branch_ends_the_tree(m: Teammate, tasks: Seq<BackgroundTask>)
    ensures
        has_text(branch_row(m, true, tasks)[0].0, "└"@),
        has_text(branch_row(m, false, tasks)[0].0, "├"@),
{
    reveal_strlit("   └─ ");
    reveal_strlit("   ├─ ");
    reveal_strlit("└");
    reveal_strlit("├");
    assert("   └─ "@.subrange(3, 4) =~= "└"@);
    assert("   ├─ "@.subrange(3, 4) =~= "├"@);
    assert(crate::slicing::occurs_at("   └─ "@, "└"@, 3));
    assert(crate::slicing::occurs_at("   ├─ "@, "├"@, 3));
}

} // verus!
