//! The transcript's area: where it is scrolled to, the view of one background
//! agent, and the band that tells what happened while the user was away.
use vstd::prelude::*;

use crate::activity::capped_count;
use crate::agent_detail::{agent_detail_lines, detail_rows};
use crate::agents::{row_columns, spans_width};
use crate::background::{agent_at, find_agent, AgentProgress, AgentStatus, BackgroundTask, WorkflowProgress};
use crate::bytes_len::{cut_at_bytes, cut_bytes, utf8_size};
use crate::fitting::{shortened, truncate_str};
use crate::layout::Rect;
use crate::pinned::{less, Row};
use crate::roster::plural;
use crate::showing::{lemma_has_in_sum, lemma_has_itself, lemma_row_has, row_text, shows};
use crate::slicing::{group_texts, has_text, lines, lines_of, opt_text, repeat, repeated, texts};
use crate::styled::{
    blank_line, blank_row, group_rows, line1, line2, line3, push_lines, row1, row2, row3, rows,
    span, Line, Span, Style, Tone,
};
use crate::text::{cat2, cat3, cat4, cat5, char_count, count_text, decimal, decimal_text, same_text};
use crate::time::Instant;
use crate::transcript::TaskLifecycle;
use ratatui::widgets::{Paragraph, Wrap};

verus! {

broadcast use {group_texts, group_rows};

// ── scrolling ───────────────────────────────────────────────────────────

/// What stands over the transcript.
#[derive(Debug, Clone, Copy, PartialEq, Eq, Structural)]
pub struct Overlays {
    pub palette: bool,
    pub model_picker: bool,
    pub session_picker: bool,
    pub task_panel: bool,
    /// The list of tasks or of teammates covers the screen.
    pub expanded_view: bool,
    pub help: bool,
    pub diagnostic_panel: bool,
    pub has_diagnostics: bool,
    pub approval: bool,
    pub question: bool,
    pub elicitation: bool,
    pub rewrite_proposal: bool,
}

impl Overlays {
    /// Something stands over the transcript, so it stays where it is.
    pub open spec fn hold_scroll(self) -> bool {
        self.palette || self.model_picker || self.session_picker || self.task_panel || self.expanded_view
            || self.help || (self.diagnostic_panel && self.has_diagnostics) || self.approval || self.question
            || self.elicitation || self.rewrite_proposal
    }
}

/// Whether something stands over the transcript, so that it stays where it is.
pub fn modal_overlay_locks_scroll(o: &Overlays) -> (r: bool)
    ensures
        r == o.hold_scroll(),
{
    o.palette || o.model_picker || o.session_picker || o.task_panel || o.expanded_view || o.help || (
    o.diagnostic_panel && o.has_diagnostics) || o.approval || o.question || o.elicitation
        || o.rewrite_proposal
}

/// Where the transcript is scrolled to.
#[derive(Debug, Clone, Copy, PartialEq, Eq, Structural)]
pub struct ScrollState {
    pub follow_bottom: bool,
    pub scroll_offset: usize,
    pub overlays: Overlays,
}

impl ScrollState {
    /// The transcript goes to its end: the user follows it, or it has become
    /// shorter than where it was scrolled to.
    pub open spec fn snaps(self, visible: nat, total: nat) -> bool {
        !self.overlays.hold_scroll() && (self.follow_bottom || self.scroll_offset + visible > total)
    }

    /// The row at the top of the area.
    pub open spec fn top_row(self, visible: nat, total: nat) -> nat {
        let last = less(total, visible);
        if self.snaps(visible, total) || self.scroll_offset > last {
            last
        } else {
            self.scroll_offset as nat
        }
    }
}

/// Whether the transcript goes to its end.
pub fn should_snap_to_bottom(s: &ScrollState, visible: usize, total_lines: usize) -> (r: bool)
    ensures
        r == s.snaps(visible as nat, total_lines as nat),
{
    !modal_overlay_locks_scroll(&s.overlays) && (s.follow_bottom || s.scroll_offset as u128 + visible as u128
        > total_lines as u128)
}

/// The row at the top of the area.
pub fn scroll_to(s: &ScrollState, visible: usize, total_lines: usize) -> (r: usize)
    ensures
        r == s.top_row(visible as nat, total_lines as nat),
{
    let last: usize = total_lines.saturating_sub(visible);
    if should_snap_to_bottom(s, visible, total_lines) || s.scroll_offset > last {
        last
    } else {
        s.scroll_offset
    }
}

/// Scrolling never shows rows behind the end; and while something stands over
/// the transcript, it does not move as long as its rows are still there.
pub proof fn law_scroll_stays_in_range(s: ScrollState, visible: nat, total: nat)
    ensures
        s.top_row(visible, total) <= less(total, visible),
        s.overlays.hold_scroll() && s.scroll_offset + visible <= total ==> s.top_row(visible, total)
            == s.scroll_offset,
        s.follow_bottom && !s.overlays.hold_scroll() ==> s.top_row(visible, total) == less(
            total,
            visible,
        ),
{
}

/// What the transcript's area comes to in this frame.
#[derive(Debug, Clone, Copy, PartialEq, Eq, Structural)]
pub struct MessagesPlan {
    /// Columns for the text: one is kept free on either side.
    pub inner_width: usize,
    pub visible: usize,
    pub scroll_offset: usize,
    /// Nothing has been said yet.
    pub empty_session: bool,
}

/// Where the transcript stands in an area of that size, with `total_lines` rows
/// at that width.
pub fn messages(
    s: &ScrollState,
    area: Rect,
    total_lines: usize,
    message_count: usize,
    streaming_len: usize,
) -> (r: MessagesPlan)
    ensures
        r == (MessagesPlan {
            inner_width: less(area.width as nat, 2) as usize,
            visible: area.height as usize,
            scroll_offset: s.top_row(area.height as nat, total_lines as nat) as usize,
            empty_session: message_count == 0 && streaming_len == 0,
        }),
{
    let visible: usize = area.height as usize;
    MessagesPlan {
        inner_width: (area.width as usize).saturating_sub(2),
        visible,
        scroll_offset: scroll_to(s, visible, total_lines),
        empty_session: message_count == 0 && streaming_len == 0,
    }
}

// ── the band ────────────────────────────────────────────────────────────

/// The rows of the band: the first line stands out.
pub open spec fn band_rows(recap: Seq<char>, height: nat) -> Seq<Row> {
    let all = lines_of(recap);
    let shown = if all.len() > height {
        all.take(height as int)
    } else {
        all
    };
    Seq::new(
        shown.len(),
        |i: int|
            row2(
                ("▌ "@, Style::in_tone(Tone::Accent)),
                (
                    shown[i],
                    if i == 0 {
                        Style::in_tone(Tone::Accent).made_bold()
                    } else {
                        Style::in_tone(Tone::TextSecondary)
                    },
                ),
            ),
    )
}

/// The band over the top of the transcript: a headline, then the details, as
/// far as `height` rows go.
pub fn away_recap_band(recap: &str, height: u16) -> (r: Vec<Line>)
    ensures
        rows(r@) == band_rows(recap@, height as nat),
{
    let all = lines(recap);
    let ghost models = texts(all@);
    assert(models.len() == all@.len());
    let count: usize = if all.len() > height as usize {
        height as usize
    } else {
        all.len()
    };
    let ghost goal = band_rows(recap@, height as nat);
    let mut out: Vec<Line> = Vec::new();
    let mut i: usize = 0;
    assert(rows(out@) =~= goal.take(0));
    while i < count
        invariant
            i <= count <= all@.len(),
            models == texts(all@),
            models == lines_of(recap@),
            models.len() == all@.len(),
            count == (if models.len() > height {
                height as int
            } else {
                models.len() as int
            }),
            goal == band_rows(recap@, height as nat),
            rows(out@) == goal.take(i as int),
        decreases count - i,
    {
        assert(models[i as int] == all@[i as int]@);
        let style = if i == 0 {
            Style::fg(Tone::Accent).bold()
        } else {
            Style::fg(Tone::TextSecondary)
        };
        out.push(line2(span("▌ ".to_owned(), Style::fg(Tone::Accent)), span(all[i].clone(), style)));
        assert(goal.take(i + 1) =~= goal.take(i as int).push(goal[i as int]));
        i += 1;
    }
    assert(goal.take(i as int) =~= goal);
    out
}

// ── workflows ───────────────────────────────────────────────────────────

/// The glyphs of a running piece of work.
pub const SPINNER: [&'static str; 10] = ["⠋", "⠙", "⠹", "⠸", "⠼", "⠴", "⠦", "⠧", "⠇", "⠏"];

/// The glyph at that frame.
pub open spec fn spinner_glyph(frame: nat) -> Seq<char> {
    SPINNER@[(frame % 10) as int]@
}

fn glyph_at(frame: usize) -> (r: &'static str)
    ensures
        r@ == spinner_glyph(frame as nat),
{
    SPINNER[frame % 10]
}

impl AgentStatus {
    /// The word for the status.
    pub open spec fn word(self) -> Seq<char> {
        match self {
            AgentStatus::Queued => "queued"@,
            AgentStatus::Running => "running"@,
            AgentStatus::Done => "done"@,
            AgentStatus::Failed => "failed"@,
            AgentStatus::Skipped => "skipped"@,
        }
    }

    pub fn as_str(self) -> (r: &'static str)
        ensures
            r@ == self.word(),
    {
        match self {
            AgentStatus::Queued => "queued",
            AgentStatus::Running => "running",
            AgentStatus::Done => "done",
            AgentStatus::Failed => "failed",
            AgentStatus::Skipped => "skipped",
        }
    }
}

/// The sign of a workflow's agent and its colour.
pub open spec fn agent_sign(status: AgentStatus, frame: nat) -> (Seq<char>, Tone) {
    match status {
        AgentStatus::Running => (spinner_glyph(frame), Tone::Accent),
        AgentStatus::Done => ("✓"@, Tone::Success),
        AgentStatus::Failed => ("✗"@, Tone::Error),
        AgentStatus::Queued => ("○"@, Tone::TextMuted),
        AgentStatus::Skipped => ("–"@, Tone::TextMuted),
    }
}

/// `s` filled up to `width` characters.
pub open spec fn filled_to(s: Seq<char>, width: nat) -> Seq<char> {
    s + repeated(" "@, less(width, s.len()))
}

fn fill_to(s: &str, width: usize) -> (r: String)
    ensures
        r@ == filled_to(s@, width as nat),
{
    cat2(s, repeat(" ", width.saturating_sub(char_count(s))).as_str())
}

/// The row of a workflow's agent.
pub open spec fn workflow_agent_row(a: AgentProgress, current: bool, frame: nat) -> Row {
    let sign = agent_sign(a.status, frame);
    let bullet = if current {
        "●"@
    } else {
        "○"@
    };
    seq![
        (
            "  "@ + bullet + " #"@ + filled_to(decimal(a.index as nat), 2) + " "@,
            Style::in_tone(Tone::TextMuted),
        ),
        (filled_to(shortened(a.label@, 42), 44), Style::in_tone(Tone::TextPrimary)),
        (a.status.word(), Style::in_tone(sign.1)),
        (" "@, Style::plain_style()),
        (sign.0, Style::in_tone(sign.1).made_bold()),
    ]
}

/// The row of a workflow's agent.
pub fn workflow_agent_line(a: &AgentProgress, in_current_phase: bool, frame: usize) -> (r: Line)
    ensures
        r@ == workflow_agent_row(*a, in_current_phase, frame as nat),
{
    let bullet = if in_current_phase {
        "●"
    } else {
        "○"
    };
    let (glyph, tone) = match a.status {
        AgentStatus::Running => (glyph_at(frame), Tone::Accent),
        AgentStatus::Done => ("✓", Tone::Success),
        AgentStatus::Failed => ("✗", Tone::Error),
        AgentStatus::Queued => ("○", Tone::TextMuted),
        AgentStatus::Skipped => ("–", Tone::TextMuted),
    };
    let number = fill_to(count_text(a.index).as_str(), 2);
    let label = fill_to(truncate_str(a.label.as_str(), 42).as_str(), 44);
    let mut spans: Vec<Span> = Vec::new();
    spans.push(span(cat5("  ", bullet, " #", number.as_str(), " "), Style::fg(Tone::TextMuted)));
    spans.push(span(label, Style::fg(Tone::TextPrimary)));
    spans.push(span(a.status.as_str().to_owned(), Style::fg(tone)));
    spans.push(span(" ".to_owned(), Style::plain()));
    spans.push(span(glyph.to_owned(), Style::fg(tone).bold()));
    let line = Line { spans };
    assert(line@ =~= workflow_agent_row(*a, in_current_phase, frame as nat));
    line
}

/// How many agents of a workflow are running.
pub open spec fn running_agents(agents: Seq<AgentProgress>) -> nat
    decreases agents.len(),
{
    if agents.len() == 0 {
        0
    } else {
        running_agents(agents.drop_last()) + if agents.last().status == AgentStatus::Running {
            1nat
        } else {
            0nat
        }
    }
}

fn count_running(agents: &Vec<AgentProgress>) -> (r: usize)
    ensures
        r == running_agents(agents@),
{
    let mut n: usize = 0;
    let mut i: usize = 0;
    assert(agents@.take(0) =~= Seq::<AgentProgress>::empty());
    while i < agents.len()
        invariant
            i <= agents@.len(),
            n <= i,
            n == running_agents(agents@.take(i as int)),
        decreases agents@.len() - i,
    {
        assert(agents@.take(i + 1).drop_last() =~= agents@.take(i as int));
        if agents[i].status == AgentStatus::Running {
            n += 1;
        }
        i += 1;
    }
    assert(agents@.take(i as int) =~= agents@);
    n
}

/// The head line of a workflow.
pub open spec fn workflow_header(w: WorkflowProgress, now: Instant) -> Seq<char> {
    let running = running_agents(w.agents@);
    " workflow: "@ + w.name@ + " · "@ + w.status@ + (" · "@ + decimal(running) + " agent"@ + plural(running)) + (
    " · "@ + decimal(w.cache_hits as nat) + " cache hit"@ + plural(w.cache_hits as nat)) + (" · "@ + decimal(
        now.since(w.started_at) / 1_000_000_000,
    ) + "s"@)
}

fn workflow_header_text(w: &WorkflowProgress, now: Instant) -> (r: String)
    ensures
        r@ == workflow_header(*w, now),
{
    let running: usize = count_running(&w.agents);
    let head = cat4(" workflow: ", w.name.as_str(), " · ", w.status.as_str());
    let agents = cat4(" · ", count_text(running).as_str(), " agent", if running == 1 {
        ""
    } else {
        "s"
    });
    let hits = cat4(" · ", decimal_text(w.cache_hits).as_str(), " cache hit", if w.cache_hits == 1 {
        ""
    } else {
        "s"
    });
    let secs: u64 = now.duration_since(w.started_at).as_secs();
    let clock = cat3(" · ", decimal_text(secs).as_str(), "s");
    cat4(head.as_str(), agents.as_str(), hits.as_str(), clock.as_str())
}

/// The texts are equal, or both are missing.
pub open spec fn same_phase(a: Option<String>, b: Option<String>) -> bool {
    opt_text(a) == opt_text(b)
}

fn is_same_phase(a: &Option<String>, b: &Option<String>) -> (r: bool)
    ensures
        r == same_phase(*a, *b),
{
    match (a, b) {
        (Some(x), Some(y)) => same_text(x.as_str(), y.as_str()),
        (None, None) => true,
        _ => false,
    }
}

/// The rows above the agents.
pub open spec fn workflow_head_rows(w: WorkflowProgress, width: nat, now: Instant) -> Seq<Row> {
    let phase = match opt_text(w.current_phase) {
        Some(name) => seq![
            row3(
                (" Phase: "@, Style::in_tone(Tone::TextMuted)),
                (name, Style::in_tone(Tone::TextPrimary).made_bold()),
                ("  (current)"@, Style::in_tone(Tone::TextMuted).made_italic()),
            ),
        ],
        None => Seq::empty(),
    };
    seq![
        row1(workflow_header(w, now), Style::in_tone(Tone::Accent).made_bold()),
        row1(repeated("─"@, less(width, 2)), Style::in_tone(Tone::Border)),
    ] + phase
}

fn workflow_head_lines(w: &WorkflowProgress, width: u16, now: Instant) -> (r: Vec<Line>)
    ensures
        rows(r@) == workflow_head_rows(*w, width as nat, now),
{
    let mut out: Vec<Line> = Vec::new();
    out.push(line1(workflow_header_text(w, now), Style::fg(Tone::Accent).bold()));
    out.push(line1(repeat("─", (width as usize).saturating_sub(2)), Style::fg(Tone::Border)));
    if let Some(name) = &w.current_phase {
        out.push(
            line3(
                span(" Phase: ".to_owned(), Style::fg(Tone::TextMuted)),
                span(name.clone(), Style::fg(Tone::TextPrimary).bold()),
                span("  (current)".to_owned(), Style::fg(Tone::TextMuted).italic()),
            ),
        );
    }
    assert(rows(out@) =~= workflow_head_rows(*w, width as nat, now));
    out
}

/// The rows of the agents.
pub open spec fn workflow_agent_rows(w: WorkflowProgress, frame: nat) -> Seq<Row> {
    w.agents@.map_values(
        |a: AgentProgress| workflow_agent_row(a, same_phase(w.current_phase, a.phase), frame),
    )
}

fn workflow_agent_lines(w: &WorkflowProgress, frame: usize) -> (r: Vec<Line>)
    ensures
        rows(r@) == workflow_agent_rows(*w, frame as nat),
{
    let ghost all = workflow_agent_rows(*w, frame as nat);
    let mut out: Vec<Line> = Vec::new();
    let mut i: usize = 0;
    assert(rows(out@) =~= all.take(0));
    while i < w.agents.len()
        invariant
            i <= w.agents@.len(),
            all == workflow_agent_rows(*w, frame as nat),
            rows(out@) == all.take(i as int),
        decreases w.agents@.len() - i,
    {
        let current = is_same_phase(&w.current_phase, &w.agents[i].phase);
        out.push(workflow_agent_line(&w.agents[i], current, frame));
        assert(all.take(i + 1) =~= all.take(i as int).push(all[i as int]));
        i += 1;
    }
    assert(all.take(i as int) =~= all);
    out
}

/// The rows of the log.
pub open spec fn log_rows(logs: Seq<Seq<char>>, width: nat) -> Seq<Row> {
    let head = seq![
        row1(repeated("─"@, less(width, 2)), Style::in_tone(Tone::Border)),
        row1(" Logs:"@, Style::in_tone(Tone::TextMuted)),
    ];
    if logs.len() == 0 {
        head + seq![row1("   (none)"@, Style::in_tone(Tone::TextMuted))]
    } else {
        head + logs.map_values(
            |l: Seq<char>| row2(("   "@, Style::plain_style()), (l, Style::in_tone(Tone::TextMuted))),
        )
    }
}

fn log_lines(logs: &Vec<String>, width: u16) -> (r: Vec<Line>)
    ensures
        rows(r@) == log_rows(texts(logs@), width as nat),
{
    let mut out: Vec<Line> = Vec::new();
    out.push(line1(repeat("─", (width as usize).saturating_sub(2)), Style::fg(Tone::Border)));
    out.push(line1(" Logs:".to_owned(), Style::fg(Tone::TextMuted)));
    let ghost head = rows(out@);
    assert(head =~= seq![
        row1(repeated("─"@, less(width as nat, 2)), Style::in_tone(Tone::Border)),
        row1(" Logs:"@, Style::in_tone(Tone::TextMuted)),
    ]);
    let ghost all = texts(logs@).map_values(
        |l: Seq<char>| row2(("   "@, Style::plain_style()), (l, Style::in_tone(Tone::TextMuted))),
    );
    assert(texts(logs@).len() == logs@.len());
    if logs.len() == 0 {
        let none = line1("   (none)".to_owned(), Style::fg(Tone::TextMuted));
        out.push(none);
        assert(rows(out@) =~= head + seq![none@]);
        return out;
    }
    let mut i: usize = 0;
    assert(rows(out@) =~= head + all.take(0));
    while i < logs.len()
        invariant
            i <= logs@.len(),
            texts(logs@).len() == logs@.len(),
            all == texts(logs@).map_values(
                |l: Seq<char>|
                    row2(("   "@, Style::plain_style()), (l, Style::in_tone(Tone::TextMuted))),
            ),
            rows(out@) == head + all.take(i as int),
        decreases logs@.len() - i,
    {
        assert(texts(logs@)[i as int] == logs@[i as int]@);
        out.push(
            line2(
                span("   ".to_owned(), Style::plain()),
                span(logs[i].clone(), Style::fg(Tone::TextMuted)),
            ),
        );
        assert(head + all.take(i + 1) =~= (head + all.take(i as int)).push(all[i as int]));
        i += 1;
    }
    assert(all.take(i as int) =~= all);
    out
}

/// The progress of a workflow.
pub open spec fn workflow_rows(w: WorkflowProgress, width: nat, frame: nat, now: Instant) -> Seq<Row> {
    workflow_head_rows(w, width, now) + workflow_agent_rows(w, frame) + log_rows(texts(w.logs@), width)
}

/// The progress of a workflow, and the row at its top when it is scrolled.
pub fn render_workflow_detail(
    w: &WorkflowProgress,
    width: u16,
    frame: usize,
    scroll_offset: usize,
    visible: usize,
    now: Instant,
) -> (r: (Vec<Line>, usize))
    ensures
        rows(r.0@) == workflow_rows(*w, width as nat, frame as nat, now),
        r.1 == (if scroll_offset > less(r.0@.len(), visible as nat) {
            less(r.0@.len(), visible as nat)
        } else {
            scroll_offset as nat
        }),
{
    let mut out = workflow_head_lines(w, width, now);
    push_lines(&mut out, workflow_agent_lines(w, frame));
    push_lines(&mut out, log_lines(&w.logs, width));
    let last: usize = out.len().saturating_sub(visible);
    let scroll: usize = if scroll_offset > last {
        last
    } else {
        scroll_offset
    };
    (out, scroll)
}

// ── one agent ───────────────────────────────────────────────────────────

/// The id can be cut behind its first twelve bytes.
pub open spec fn cuts_cleanly(id: Seq<char>) -> bool {
    utf8_size(id) <= 12 || utf8_size(cut_at_bytes(id, 12)) == 12
}

/// The title of the view.
pub open spec fn view_title(tasks: Seq<BackgroundTask>, id: Seq<char>) -> Seq<char> {
    match agent_at(tasks, id, 0) {
        None => "task "@ + id + " (not found)"@,
        Some(i) => " "@ + cut_at_bytes(tasks[i].task_id@, 12) + " · "@ + tasks[i].description@ + " "@,
    }
}

/// The title of the view.
pub fn task_view_title(tasks: &Vec<BackgroundTask>, id: &str) -> (r: String)
    requires
        agent_at(tasks@, id@, 0) is Some ==> cuts_cleanly(id@),
    ensures
        r@ == view_title(tasks@, id@),
{
    match find_agent(tasks, id) {
        None => cat3("task ", id, " (not found)"),
        Some(bt) => cat5(
            " ",
            cut_bytes(bt.task_id.as_str(), 12).as_str(),
            " · ",
            bt.description.as_str(),
            " ",
        ),
    }
}

/// The line that says whether more is to come.
pub open spec fn hint_rows(status: Option<TaskLifecycle>, frame: nat) -> Seq<Row> {
    match status {
        Some(TaskLifecycle::Running) => seq![
            row3(
                (spinner_glyph(frame), Style::in_tone(Tone::Accent).made_bold()),
                ("  "@, Style::plain_style()),
                ("Receiving output…"@, Style::in_tone(Tone::TextMuted)),
            ),
        ],
        Some(TaskLifecycle::Idle) => seq![
            row2(
                ("⏸  "@, Style::in_tone(Tone::TextMuted)),
                (
                    "idle — waiting for next message"@,
                    Style::in_tone(Tone::TextMuted).made_italic(),
                ),
            ),
        ],
        _ => Seq::empty(),
    }
}

/// The line that says whether more is to come: for an agent that is running or
/// idle.
pub fn task_hint(status: Option<TaskLifecycle>, frame: usize) -> (r: Option<Line>)
    ensures
        match r {
            Some(l) => hint_rows(status, frame as nat) == seq![l@],
            None => hint_rows(status, frame as nat) == Seq::<Row>::empty(),
        },
{
    match status {
        Some(TaskLifecycle::Running) => Some(
            line3(
                span(glyph_at(frame).to_owned(), Style::fg(Tone::Accent).bold()),
                span("  ".to_owned(), Style::plain()),
                span("Receiving output…".to_owned(), Style::fg(Tone::TextMuted)),
            ),
        ),
        Some(TaskLifecycle::Idle) => Some(
            line2(
                span("⏸  ".to_owned(), Style::fg(Tone::TextMuted)),
                span(
                    "idle — waiting for next message".to_owned(),
                    Style::fg(Tone::TextMuted).italic(),
                ),
            ),
        ),
        _ => None,
    }
}

/// The status of the agent with that id.
pub open spec fn status_of(tasks: Seq<BackgroundTask>, id: Seq<char>) -> Option<TaskLifecycle> {
    match agent_at(tasks, id, 0) {
        Some(i) => Some(tasks[i].status),
        None => None,
    }
}

/// The log of an agent that has no messages: its details, its log, and the line
/// that says whether more is to come.
pub open spec fn log_view_rows(
    tasks: Seq<BackgroundTask>,
    id: Seq<char>,
    log: Seq<Row>,
    width: nat,
    frame: nat,
    now: Instant,
) -> Seq<Row> {
    let body = match agent_at(tasks, id, 0) {
        Some(i) => detail_rows(tasks[i], width, now) + seq![blank_row()] + log,
        None => Seq::empty(),
    };
    let hint = hint_rows(status_of(tasks, id), frame);
    if hint.len() > 0 && body.len() > 0 {
        body + seq![blank_row()] + hint
    } else {
        body + hint
    }
}

fn log_view_lines(
    tasks: &Vec<BackgroundTask>,
    id: &str,
    log: Vec<Line>,
    width: u16,
    frame: usize,
    now: Instant,
) -> (r: Vec<Line>)
    ensures
        rows(r@) == log_view_rows(tasks@, id@, rows(log@), width as nat, frame as nat, now),
{
    let mut out: Vec<Line> = Vec::new();
    let mut status: Option<TaskLifecycle> = None;
    if let Some(bt) = find_agent(tasks, id) {
        status = Some(bt.status);
        out = agent_detail_lines(bt, width, now);
        let ghost details = rows(out@);
        out.push(blank_line());
        assert(rows(out@) =~= details + seq![blank_row()]);
        push_lines(&mut out, log);
    }
    let ghost body = rows(out@);
    assert(body.len() == out@.len());
    match task_hint(status, frame) {
        Some(hint) => {
            if out.len() > 0 {
                out.push(blank_line());
                assert(rows(out@) =~= body + seq![blank_row()]);
            } else {
                assert(body =~= Seq::<Row>::empty());
            }
            let ghost before = rows(out@);
            out.push(hint);
            assert(rows(out@) =~= before + seq![hint@]);
        },
        None => {
            assert(body =~= body + Seq::<Row>::empty());
        },
    }
    out
}

// ── counting rows ───────────────────────────────────────────────────────

/// The texts of a row's spans.
pub open spec fn row_texts(row: Row) -> Seq<Seq<char>> {
    row.map_values(|s: (Seq<char>, Style)| s.0)
}

/// The name of what `Paragraph::line_count` returns for one line of spans that
/// wraps at words and keeps the space at the start of a row.
pub uninterp spec fn wrapped_rows(spans: Seq<Seq<char>>, width: u16) -> usize;

/// `Paragraph::line_count` of one line of spans that wraps at words and keeps
/// the space at the start of a row: how many rows the line takes in `width`
/// columns. It adds up columns in sixteen bits, fewer than four times the width
/// together, so the width is bounded.
#[verifier::external_body]
fn wrapped_row_count(spans: &Vec<String>, width: u16) -> (r: usize)
    requires
        width * 4 <= u16::MAX,
    ensures
        r == wrapped_rows(texts(spans@), width),
{
    let parts: Vec<ratatui::text::Span> = spans.iter().map(|s| ratatui::text::Span::raw(s.as_str())).collect();
    Paragraph::new(ratatui::text::Line::from(parts)).wrap(Wrap { trim: false }).line_count(width)
}

/// Rows that a line takes: at least one.
pub open spec fn rows_taken(row: Row, width: u16) -> nat {
    if row_columns(row) == 0 || width == 0 || wrapped_rows(row_texts(row), width) == 0 {
        1
    } else {
        wrapped_rows(row_texts(row), width) as nat
    }
}

fn span_texts(line: &Line) -> (r: Vec<String>)
    ensures
        texts(r@) == row_texts(line@),
{
    let ghost all = row_texts(line@);
    let mut out: Vec<String> = Vec::new();
    let mut i: usize = 0;
    assert(texts(out@) =~= all.take(0));
    while i < line.spans.len()
        invariant
            i <= line.spans@.len(),
            all == row_texts(line@),
            texts(out@) == all.take(i as int),
        decreases line.spans@.len() - i,
    {
        assert(line@[i as int] == line.spans@[i as int]@);
        out.push(line.spans[i].text.clone());
        assert(all.take(i + 1) =~= all.take(i as int).push(all[i as int]));
        i += 1;
    }
    assert(all.take(i as int) =~= all);
    out
}

fn count_rows(line: &Line, width: u16) -> (r: usize)
    requires
        width * 4 <= u16::MAX,
    ensures
        r == rows_taken(line@, width),
{
    if spans_width(&line.spans, 1) == 0 || width == 0 {
        return 1;
    }
    let n: usize = wrapped_row_count(&span_texts(line), width);
    if n == 0 {
        1
    } else {
        n
    }
}

/// Rows that lines take together.
pub open spec fn total_rows(all: Seq<Row>, width: u16) -> nat
    decreases all.len(),
{
    if all.len() == 0 {
        0
    } else {
        capped_count(total_rows(all.drop_last(), width), rows_taken(all.last(), width))
    }
}

fn count_all_rows(all: &Vec<Line>, width: u16) -> (r: usize)
    requires
        width * 4 <= u16::MAX,
    ensures
        r == total_rows(rows(all@), width),
{
    let ghost models = rows(all@);
    let mut total: usize = 0;
    let mut i: usize = 0;
    assert(models.take(0) =~= Seq::<Row>::empty());
    while i < all.len()
        invariant
            i <= all@.len(),
            models == rows(all@),
            width * 4 <= u16::MAX,
            total == total_rows(models.take(i as int), width),
        decreases all@.len() - i,
    {
        assert(models.take(i + 1).drop_last() =~= models.take(i as int));
        assert(models.take(i + 1).last() == all@[i as int]@);
        total = total.saturating_add(count_rows(&all[i], width));
        i += 1;
    }
    assert(models.take(i as int) =~= models);
    total
}

// ── the view ────────────────────────────────────────────────────────────

/// Where a view is scrolled to.
#[derive(Debug, Clone, Copy, PartialEq, Eq, Structural)]
pub struct Scrolled {
    pub scroll_offset: usize,
    pub total_lines: usize,
    pub viewport_height: usize,
}

/// What the view of an agent shows.
#[derive(Debug)]
pub enum TaskBody {
    /// The progress of a workflow, from that row on.
    Workflow { lines: Vec<Line>, top_row: usize },
    /// The messages of the agent, with a line over the last row that says
    /// whether more is to come.
    Messages { hint: Option<(Line, Rect)> },
    /// The log of an agent that has no messages.
    Log { lines: Vec<Line> },
}

/// The view of an agent, ready to be drawn.
#[derive(Debug)]
pub struct TaskView {
    pub title: String,
    /// The area below the title.
    pub inner: Rect,
    pub body: TaskBody,
    /// Where the view is scrolled to now. A workflow leaves that as it is.
    pub scrolled: Option<Scrolled>,
}

/// What an area has left below a row for the title.
pub open spec fn below_title(area: Rect) -> Rect {
    if area.height == 0 {
        area
    } else {
        Rect { x: area.x, y: (area.y + 1) as u16, width: area.width, height: (area.height - 1) as u16 }
    }
}

/// The last row of an area.
pub open spec fn last_row_of(area: Rect) -> Rect {
    Rect { x: area.x, y: (area.y + area.height - 1) as u16, width: area.width, height: 1 }
}

/// What is shown where there is nothing to show.
pub open spec fn nothing_rows() -> Seq<Row> {
    seq![
        blank_row(),
        row1("No messages yet for this background task."@, Style::in_tone(Tone::TextMuted)),
    ]
}

/// The progress of the workflow that the agent runs.
pub open spec fn workflow_of(tasks: Seq<BackgroundTask>, id: Seq<char>) -> Option<WorkflowProgress> {
    match agent_at(tasks, id, 0) {
        Some(i) => tasks[i].workflow_progress,
        None => None,
    }
}

/// The agent has messages.
pub open spec fn has_messages(tasks: Seq<BackgroundTask>, id: Seq<char>) -> bool {
    match agent_at(tasks, id, 0) {
        Some(i) => tasks[i].chat_messages@.len() > 0,
        None => false,
    }
}

/// The view is scrolled as `s` says.
pub open spec fn is_scrolled(scrolled: Option<Scrolled>, s: ScrollState, visible: nat, total: nat) -> bool {
    &&& scrolled matches Some(at)
    &&& at.scroll_offset == s.top_row(visible, total)
    &&& at.total_lines == total
    &&& at.viewport_height == visible
}

/// The view shows the agent: the progress of its workflow where it runs one,
/// else its messages, which take `message_rows` rows, else its log.
pub open spec fn is_task_view(
    v: TaskView,
    tasks: Seq<BackgroundTask>,
    id: Seq<char>,
    log: Seq<Row>,
    message_rows: nat,
    s: ScrollState,
    area: Rect,
    frame: nat,
    now: Instant,
) -> bool {
    let inner = below_title(area);
    let visible = inner.height as nat;
    &&& v.title@ == view_title(tasks, id)
    &&& v.inner == inner
    &&& match workflow_of(tasks, id) {
        Some(w) => {
            &&& v.body matches TaskBody::Workflow { lines, top_row }
            &&& rows(lines@) == workflow_rows(w, inner.width as nat, frame, now)
            &&& top_row == (if s.scroll_offset > less(lines@.len(), visible) {
                less(lines@.len(), visible)
            } else {
                s.scroll_offset as nat
            })
            &&& v.scrolled is None
        },
        None => if has_messages(tasks, id) {
            &&& v.body matches TaskBody::Messages { hint }
            &&& match hint {
                Some((line, at)) => hint_rows(status_of(tasks, id), frame) == seq![line@] && visible > 0 && at
                    == last_row_of(inner),
                None => hint_rows(status_of(tasks, id), frame).len() == 0 || visible == 0,
            }
            &&& is_scrolled(v.scrolled, s, visible, message_rows)
        } else {
            let body = log_view_rows(tasks, id, log, area.width as nat, frame, now);
            &&& v.body matches TaskBody::Log { lines }
            &&& rows(lines@) == (if body.len() == 0 {
                nothing_rows()
            } else {
                body
            })
            &&& is_scrolled(v.scrolled, s, visible, total_rows(body, inner.width))
        },
    }
}

fn scrolled_to(s: &ScrollState, visible: usize, total_lines: usize) -> (r: Option<Scrolled>)
    ensures
        is_scrolled(r, *s, visible as nat, total_lines as nat),
{
    Some(
        Scrolled { scroll_offset: scroll_to(s, visible, total_lines), total_lines, viewport_height: visible },
    )
}

/// The view of the agent with that id. `log` holds the rows of its log, and its
/// messages take `message_rows` rows.
pub fn messages_task_view(
    tasks: &Vec<BackgroundTask>,
    id: &str,
    log: Vec<Line>,
    message_rows: usize,
    s: &ScrollState,
    area: Rect,
    frame: usize,
    now: Instant,
) -> (r: TaskView)
    requires
        agent_at(tasks@, id@, 0) is Some ==> cuts_cleanly(id@),
        area.fits(),
        workflow_of(tasks@, id@) is None && !has_messages(tasks@, id@) ==> area.width * 4 <= u16::MAX,
    ensures
        is_task_view(r, tasks@, id@, rows(log@), message_rows as nat, *s, area, frame as nat, now),
{
    let title = task_view_title(tasks, id);
    let inner = if area.height == 0 {
        area
    } else {
        Rect { x: area.x, y: area.y + 1, width: area.width, height: area.height - 1 }
    };
    let visible: usize = inner.height as usize;
    if let Some(bt) = find_agent(tasks, id) {
        if let Some(w) = &bt.workflow_progress {
            let (lines, top_row) = render_workflow_detail(w, inner.width, frame, s.scroll_offset, visible, now);
            return TaskView { title, inner, body: TaskBody::Workflow { lines, top_row }, scrolled: None };
        }
        if bt.chat_messages.len() > 0 {
            let hint = match task_hint(Some(bt.status), frame) {
                Some(line) => if inner.height > 0 {
                    Some((line, Rect { x: inner.x, y: inner.y + inner.height - 1, width: inner.width, height: 1 }))
                } else {
                    None
                },
                None => None,
            };
            return TaskView {
                title,
                inner,
                body: TaskBody::Messages { hint },
                scrolled: scrolled_to(s, visible, message_rows),
            };
        }
    }
    let mut lines = log_view_lines(tasks, id, log, area.width, frame, now);
    let total_lines: usize = count_all_rows(&lines, inner.width);
    assert(rows(lines@).len() == lines@.len());
    if lines.len() == 0 {
        lines.push(blank_line());
        lines.push(
            line1("No messages yet for this background task.".to_owned(), Style::fg(Tone::TextMuted)),
        );
        assert(rows(lines@) =~= nothing_rows());
    }
    TaskView { title, inner, body: TaskBody::Log { lines }, scrolled: scrolled_to(s, visible, total_lines) }
}

/// Whatever lies over the transcript holds it where it is.
pub proof fn law_every_overlay_holds_the_scroll(o: Overlays)
    ensures
        o.palette ==> o.hold_scroll(),
        o.model_picker ==> o.hold_scroll(),
        o.session_picker ==> o.hold_scroll(),
        o.task_panel ==> o.hold_scroll(),
        o.expanded_view ==> o.hold_scroll(),
        o.help ==> o.hold_scroll(),
        o.approval ==> o.hold_scroll(),
        o.question ==> o.hold_scroll(),
        o.elicitation ==> o.hold_scroll(),
        o.rewrite_proposal ==> o.hold_scroll(),
        o.diagnostic_panel ==> o.hold_scroll() == (o.has_diagnostics || o.palette || o.model_picker || o.session_picker
            || o.task_panel || o.expanded_view || o.help || o.approval || o.question || o.elicitation
            || o.rewrite_proposal),
{
}

/// The last line is on the screen while the transcript follows its end; one that was
/// scrolled back stays where it is, whatever is added at the end.
pub proof fn law_following_shows_the_end(s: ScrollState, visible: nat, total: nat, more: nat)
    ensures
        s.follow_bottom && !s.overlays.hold_scroll() && total >= visible ==> s.top_row(visible, total) + visible
            == total,
        !s.follow_bottom && s.scroll_offset + visible <= total ==> s.top_row(visible, total) == s.scroll_offset
            && s.top_row(visible, total + more) == s.scroll_offset,
        total <= visible ==> s.top_row(visible, total) == 0,
{
}

/// The band shows every line of the recap for which it has room, in its order.
pub proof fn law_band_shows_the_recap(recap: Seq<char>, height: nat, i: int)
    requires
        0 <= i < lines_of(recap).len(),
        i < height,
    ensures
        i < band_rows(recap, height).len(),
        has_text(row_text(band_rows(recap, height)[i]), lines_of(recap)[i]),
        band_rows(recap, height).len() <= height,
{
    lemma_has_itself(lines_of(recap)[i]);
    lemma_row_has(band_rows(recap, height)[i], 1, lines_of(recap)[i]);
}

/// Every agent of a workflow has a row with its name and its state, and every line of
/// the log is shown.
pub proof fn law_workflows_show_agents_and_logs(w: WorkflowProgress, width: nat, frame: nat, now: Instant, k: int)
    ensures
        0 <= k < w.agents@.len() ==> shows(workflow_rows(w, width, frame, now), shortened(w.agents@[k].label@, 42))
            && shows(workflow_rows(w, width, frame, now), w.agents@[k].status.word()),
        0 <= k < w.logs@.len() ==> shows(workflow_rows(w, width, frame, now), w.logs@[k]@),
        shows(workflow_rows(w, width, frame, now), w.name@),
        shows(workflow_rows(w, width, frame, now), w.status@),
        w.current_phase is Some ==> shows(workflow_rows(w, width, frame, now), w.current_phase->0@),
{
    let head = workflow_head_rows(w, width, now);
    let agents = workflow_agent_rows(w, frame);
    let logs = log_rows(texts(w.logs@), width);
    let all = workflow_rows(w, width, frame, now);
    if 0 <= k < w.agents@.len() {
        let a = w.agents@[k];
        let row = all[head.len() + k];
        assert(row == agents[k]);
        let name = shortened(a.label@, 42);
        lemma_has_itself(name);
        lemma_has_in_sum(name, repeated(" "@, less(44, name.len())), name);
        lemma_row_has(row, 1, name);
        lemma_has_itself(a.status.word());
        lemma_row_has(row, 2, a.status.word());
    }
    if 0 <= k < w.logs@.len() {
        let row = all[head.len() + agents.len() + 2 + k];
        assert(row == logs[2 + k]);
        assert(row[1].0 == w.logs@[k]@);
        lemma_has_itself(w.logs@[k]@);
        lemma_row_has(row, 1, w.logs@[k]@);
    }
    lemma_header_has(w, now);
    assert(all[0] == head[0]);
    lemma_row_has(all[0], 0, w.name@);
    lemma_row_has(all[0], 0, w.status@);
    if w.current_phase is Some {
        let phase = w.current_phase->0@;
        assert(all[2] == head[2]);
        lemma_has_itself(phase);
        lemma_row_has(all[2], 1, phase);
    }
}

proof fn lemma_header_has(w: WorkflowProgress, now: Instant)
    ensures
        has_text(workflow_header(w, now), w.name@),
        has_text(workflow_header(w, now), w.status@),
{
    let a = " workflow: "@ + w.name@;
    let b = a + " · "@ + w.status@;
    lemma_has_in_sum(" workflow: "@, w.name@, w.name@);
    lemma_has_in_sum(a, " · "@, w.name@);
    lemma_has_in_sum(a + " · "@, w.status@, w.name@);
    let running = running_agents(w.agents@);
    let c = " · "@ + decimal(running) + " agent"@ + plural(running);
    let d = " · "@ + decimal(w.cache_hits as nat) + " cache hit"@ + plural(w.cache_hits as nat);
    let e = " · "@ + decimal(now.since(w.started_at) / 1_000_000_000) + "s"@;
    lemma_has_in_sum(b, c, w.name@);
    lemma_has_in_sum(b, c, w.status@);
    lemma_has_in_sum(b + c, d, w.name@);
    lemma_has_in_sum(b + c, d, w.status@);
    lemma_has_in_sum(b + c + d, e, w.name@);
    lemma_has_in_sum(b + c + d, e, w.status@);
}

/// The states of a workflow's agents have words and signs of their own.
pub proof fn law_agent_states_are_told_apart(a: AgentStatus, b: AgentStatus)
    requires
        a.word() == b.word(),
    ensures
        a == b,
{
    reveal_strlit("queued");
    reveal_strlit("running");
    reveal_strlit("done");
    reveal_strlit("failed");
    reveal_strlit("skipped");
    assert("queued"@[0] == 'q' && "running"@[0] == 'r' && "done"@[0] == 'd' && "failed"@[0] == 'f' && "skipped"@[0]
        == 's');
}

/// The view of an agent bears its description; one that is not there is named as not
/// found.
pub proof fn law_view_is_titled(tasks: Seq<BackgroundTask>, id: Seq<char>)
    ensures
        match agent_at(tasks, id, 0) {
            Some(i) => has_text(view_title(tasks, id), tasks[i].description@),
            None => has_text(view_title(tasks, id), id + " (not found)"@),
        },
{
    match agent_at(tasks, id, 0) {
        Some(i) => {
            let d = tasks[i].description@;
            let a = " "@ + cut_at_bytes(tasks[i].task_id@, 12) + " · "@;
            lemma_has_in_sum(a, d, d);
            lemma_has_in_sum(a + d, " "@, d);
        },
        None => {
            let w = id + " (not found)"@;
            let all = view_title(tasks, id);
            let at: int = "task "@.len() as int;
            assert(all.subrange(at, all.len() as int) =~= w);
            assert(crate::slicing::occurs_at(all, w, at));
        },
    }
}

/// What an agent without messages has logged is shown, row for row, under its details,
/// and while it runs, that more is to come.
pub proof fn law_logs_are_shown_whole(
    tasks: Seq<BackgroundTask>,
    id: Seq<char>,
    log: Seq<Row>,
    width: nat,
    frame: nat,
    now: Instant,
    i: int,
    k: int,
)
    requires
        agent_at(tasks, id, 0) == Some(i),
        0 <= k < log.len(),
    ensures
        log_view_rows(tasks, id, log, width, frame, now).contains(log[k]),
        tasks[i].status == TaskLifecycle::Running ==> shows(
            log_view_rows(tasks, id, log, width, frame, now),
            "Receiving output…"@,
        ),
{
    let details = detail_rows(tasks[i], width, now);
    let all = log_view_rows(tasks, id, log, width, frame, now);
    assert(all[details.len() + 1 + k] == log[k]);
    if tasks[i].status == TaskLifecycle::Running {
        let row = all[all.len() - 1];
        lemma_has_itself("Receiving output…"@);
        lemma_row_has(row, 2, "Receiving output…"@);
    }
}

} // verus!
