//! Small signs around the transcript: the goal that is being worked on, what
//! could be dropped when the context runs full, and the agents below the input
//! box.
use vstd::prelude::*;

use crate::agents::{fan_rows, render_subagent_tree};
use crate::background::Fleet;
use crate::fitting::{fmt_number, grouped};
use crate::slicing::{contains, has_text, opt_text};
use crate::spinner::{elapsed_text, fmt_elapsed};
use crate::styled::{line3, row3, rows, span, spans_of, Line, Style, Tone};
use crate::teammates::{render_teammate_tree, tree_rows, Teammate};
use crate::text::{cat2, cat3, lowercase, to_lowercase};
use crate::time::{Duration, Instant};

verus! {

// ── the goal ────────────────────────────────────────────────────────────

/// A goal that is being worked on.
#[derive(Debug)]
pub struct ActiveGoal {
    pub condition: String,
    /// When it was set, in milliseconds since 1970.
    pub set_at_ms: u64,
}

impl ActiveGoal {
    /// Milliseconds since it was set; none if the clock was put back.
    pub open spec fn elapsed_ms(self, now_ms: u64) -> nat {
        if now_ms > self.set_at_ms {
            (now_ms - self.set_at_ms) as nat
        } else {
            0
        }
    }

    pub fn elapsed(&self, now_ms: u64) -> (r: Duration)
        ensures
            r@ == self.elapsed_ms(now_ms) * 1_000_000,
    {
        Duration::from_millis(now_ms.saturating_sub(self.set_at_ms))
    }
}

/// The sign of a goal, with the time that it has been worked on.
pub open spec fn goal_text(goal: ActiveGoal, now_ms: u64) -> Seq<char> {
    "◎ /goal active ("@ + elapsed_text(goal.elapsed_ms(now_ms) / 1000) + ")"@
}

/// The sign of a goal, with the time that it has been worked on.
pub fn goal_status_badge(goal: &ActiveGoal, now_ms: u64) -> (r: String)
    ensures
        r@ == goal_text(*goal, now_ms),
{
    let elapsed = fmt_elapsed(goal.elapsed(now_ms));
    assert(goal.elapsed_ms(now_ms) * 1_000_000 / 1_000_000_000 == goal.elapsed_ms(now_ms) / 1000)
        by (nonlinear_arith);
    cat3("◎ /goal active (", elapsed.as_str(), ")")
}

// ── context that could be dropped ───────────────────────────────────────

/// How urgent it is to drop context.
#[derive(Debug, Clone, Copy, PartialEq, Eq, Structural)]
pub enum NudgeKind {
    ChannelOne,
    ChannelTwo,
    Emergency,
}

/// Advice to drop context.
#[derive(Debug, Clone, Copy, PartialEq, Eq, Structural)]
pub struct ContextPressureNudge {
    pub kind: NudgeKind,
    /// So many tokens at least should go.
    pub reclaim_floor_tokens: u64,
}

impl NudgeKind {
    pub open spec fn short(self) -> (Seq<char>, Tone) {
        match self {
            NudgeKind::ChannelOne => ("ch1"@, Tone::Warning),
            NudgeKind::ChannelTwo => ("ch2"@, Tone::Error),
            NudgeKind::Emergency => ("emergency"@, Tone::Error),
        }
    }
}

/// The row that advises to drop context.
pub fn nudge_line(nudge: ContextPressureNudge) -> (r: Line)
    ensures
        spans_of(r.spans@) == row3(
            ("ctx_reduce "@, Style::in_tone(Tone::TextMuted)),
            (nudge.kind.short().0, Style::in_tone(nudge.kind.short().1)),
            (
                " drop "@ + grouped(nudge.reclaim_floor_tokens as nat),
                Style::in_tone(Tone::TextSecondary),
            ),
        ),
{
    let (kind, tone) = match nudge.kind {
        NudgeKind::ChannelOne => ("ch1", Tone::Warning),
        NudgeKind::ChannelTwo => ("ch2", Tone::Error),
        NudgeKind::Emergency => ("emergency", Tone::Error),
    };
    line3(
        span("ctx_reduce ".to_owned(), Style::fg(Tone::TextMuted)),
        span(kind.to_owned(), Style::fg(tone)),
        span(
            cat2(" drop ", fmt_number(nudge.reclaim_floor_tokens).as_str()),
            Style::fg(Tone::TextSecondary),
        ),
    )
}

// ── agents below the input box ──────────────────────────────────────────

/// The agents below the input box: the title of their frame, if there is one,
/// and their rows.
#[derive(Debug)]
pub struct AgentFan {
    pub title: Option<&'static str>,
    pub lines: Vec<Line>,
}

/// The agents below the input box, where there is room for them: those of the
/// team, if there is one, and the background agents otherwise. The rows stand
/// below a line across the area.
pub fn agent_fan_below_input(
    team: Option<&Vec<Teammate>>,
    fleet: &Fleet,
    width: u16,
    height: u16,
    now: Instant,
) -> (r: Option<AgentFan>)
    ensures
        r is Some == (height > 0),
        r is Some ==> match team {
            Some(mates) => {
                &&& r->0.title is Some && r->0.title->0@ == " team "@
                &&& rows(r->0.lines@) == tree_rows(mates@, fleet.tasks@, width as nat, (height - 1) as nat)
            },
            None => {
                &&& r->0.title is None
                &&& rows(r->0.lines@) == fan_rows(
                    fleet.tasks@,
                    opt_text(fleet.last_active),
                    opt_text(fleet.viewing),
                    width as nat,
                    (height - 1) as nat,
                    now,
                )
            },
        },
{
    if height == 0 {
        return None;
    }
    match team {
        Some(mates) => Some(
            AgentFan {
                title: Some(" team "),
                lines: render_teammate_tree(mates, &fleet.tasks, width, height - 1),
            },
        ),
        None => Some(
            AgentFan { title: None, lines: render_subagent_tree(fleet, width, height - 1, now) },
        ),
    }
}

// ── colours of the terminal ─────────────────────────────────────────────

/// The terminal says in lower case that it shows any colour.
pub fn names_truecolor(lower: &str) -> (r: bool)
    ensures
        r == (has_text(lower@, "truecolor"@) || has_text(lower@, "24bit"@)),
{
    contains(lower, "truecolor") || contains(lower, "24bit")
}

/// Whether the terminal says that it shows any colour.
pub fn terminal_truecolor(colorterm: &Option<String>) -> (r: bool)
    ensures
        r == match opt_text(*colorterm) {
            Some(v) => has_text(lowercase(v), "truecolor"@) || has_text(lowercase(v), "24bit"@),
            None => false,
        },
{
    match colorterm {
        Some(v) => names_truecolor(to_lowercase(v.as_str()).as_str()),
        None => false,
    }
}

/// A goal says for how long it has been active, and a clock that went back counts as no
/// time.
pub proof fn law_goals_tell_their_age(goal: ActiveGoal, now_ms: u64)
    ensures
        has_text(goal_text(goal, now_ms), elapsed_text(goal.elapsed_ms(now_ms) / 1000)),
        now_ms >= goal.set_at_ms ==> goal.elapsed_ms(now_ms) == now_ms - goal.set_at_ms,
        now_ms < goal.set_at_ms ==> goal.elapsed_ms(now_ms) == 0,
{
    let time = elapsed_text(goal.elapsed_ms(now_ms) / 1000);
    crate::showing::lemma_has_in_sum("◎ /goal active ("@, time, time);
    crate::showing::lemma_has_in_sum("◎ /goal active ("@ + time, ")"@, time);
}

} // verus!
