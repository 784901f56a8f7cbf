//! The detail pane of a task, and the area of plugin widgets below the task
//! list.
use vstd::prelude::*;

use crate::agent_detail::{agent_detail_lines, detail_rows};
use crate::background::BackgroundTask;
use crate::fitting::{shortened, truncate_str};
use crate::layout::{is_split, split_area, Axis, Part, Rect};
use crate::pinned::{less, Row};
use crate::roster::{bare_model, model_fqn};
use crate::showing::{lemma_has_in_sum, lemma_has_itself, lemma_joined_has, lemma_row_has, row_text, shows};
use crate::slicing::{contains, group_texts, has_text, join, joined, lines, lines_of, opt_text, texts, trim, trimmed};
use crate::styled::{blank_line, blank_row, group_rows, line1, line2, push_lines, row1, row2, rows, span, Line, Span, Style, Tone};
use crate::tasks::Task;
use crate::text::{cat2, cat3, char_count, same_text};
use crate::time::Instant;

verus! {

broadcast use {group_texts, group_rows};

/// The model that a task asks for, as a badge.
pub open spec fn model_badge(model: Option<Seq<char>>) -> Option<Seq<char>> {
    match model {
        Some(raw) => if trimmed(raw).len() == 0 {
            None
        } else {
            Some(shortened(bare_model(trimmed(raw)), 20))
        },
        None => None,
    }
}

/// The model that a task asks for, as a badge.
pub fn task_model_badge(task: &Task) -> (r: Option<String>)
    ensures
        opt_text(r) == model_badge(opt_text(task.model)),
{
    match &task.model {
        Some(raw) => {
            let model = trim(raw.as_str());
            if char_count(model.as_str()) == 0 {
                None
            } else {
                Some(truncate_str(model_fqn(model.as_str()).as_str(), 20))
            }
        },
        None => None,
    }
}

/// The first three lines of a description; an ellipsis stands for the rest.
pub open spec fn description_rows(description: Seq<char>, width: nat) -> Seq<Row> {
    if description.len() == 0 {
        Seq::empty()
    } else {
        let all = lines_of(description);
        let shown = if all.len() > 3 {
            all.take(3)
        } else {
            all
        };
        let body = shown.map_values(
            |l: Seq<char>|
                row1("  "@ + shortened(l, less(width, 4)), Style::in_tone(Tone::TextSecondary)),
        );
        let rest = if all.len() > 3 {
            seq![row1("  ..."@, Style::in_tone(Tone::TextMuted))]
        } else {
            Seq::empty()
        };
        body + rest + seq![blank_row()]
    }
}

fn description_lines(description: &String, width: u16) -> (r: Vec<Line>)
    ensures
        rows(r@) == description_rows(description@, width as nat),
{
    let mut out: Vec<Line> = Vec::new();
    if char_count(description.as_str()) == 0 {
        return out;
    }
    let all = lines(description.as_str());
    let ghost models = texts(all@);
    let count: usize = if all.len() > 3 {
        3
    } else {
        all.len()
    };
    let ghost shown = if models.len() > 3 {
        models.take(3)
    } else {
        models
    };
    let ghost body = shown.map_values(
        |l: Seq<char>|
            row1("  "@ + shortened(l, less(width as nat, 4)), Style::in_tone(Tone::TextSecondary)),
    );
    assert(models.len() == all@.len());
    let mut i: usize = 0;
    assert(rows(out@) =~= body.take(0));
    while i < count
        invariant
            i <= count <= all@.len(),
            models == texts(all@),
            models.len() == all@.len(),
            count == (if models.len() > 3 {
                3
            } else {
                models.len() as int
            }),
            shown == (if models.len() > 3 {
                models.take(3)
            } else {
                models
            }),
            body == shown.map_values(
                |l: Seq<char>|
                    row1(
                        "  "@ + shortened(l, less(width as nat, 4)),
                        Style::in_tone(Tone::TextSecondary),
                    ),
            ),
            rows(out@) == body.take(i as int),
        decreases count - i,
    {
        assert(shown[i as int] == all@[i as int]@);
        out.push(
            line1(
                cat2("  ", truncate_str(all[i].as_str(), (width as usize).saturating_sub(4)).as_str()),
                Style::fg(Tone::TextSecondary),
            ),
        );
        assert(body.take(i + 1) =~= body.take(i as int).push(body[i as int]));
        i += 1;
    }
    assert(body.take(i as int) =~= body);
    if all.len() > 3 {
        out.push(line1("  ...".to_owned(), Style::fg(Tone::TextMuted)));
    }
    out.push(blank_line());
    assert(rows(out@) =~= description_rows(description@, width as nat));
    out
}

/// The head of the pane: id and subject.
pub open spec fn head_rows(t: Task) -> Seq<Row> {
    seq![
        row2(
            (" "@ + t.id@ + " "@, Style::in_tone(Tone::Accent).made_bold()),
            (t.subject@, Style::in_tone(Tone::TextPrimary).made_bold()),
        ),
        blank_row(),
    ]
}

/// What the task is called while it is done, and who owns it.
pub open spec fn owner_rows(t: Task) -> Seq<Row> {
    let form = match opt_text(t.active_form) {
        Some(f) => seq![
            row2(
                ("  Active: "@, Style::in_tone(Tone::TextMuted)),
                (f, Style::in_tone(Tone::TextPrimary)),
            ),
        ],
        None => Seq::empty(),
    };
    let owner = match opt_text(t.owner) {
        Some(o) => seq![
            row2(
                ("  Owner: "@, Style::in_tone(Tone::TextMuted)),
                ("@"@ + o, Style::in_tone(Tone::TextSecondary)),
            ),
        ],
        None => Seq::empty(),
    };
    form + owner
}

fn owner_lines(t: &Task) -> (r: Vec<Line>)
    ensures
        rows(r@) == owner_rows(*t),
{
    let mut out: Vec<Line> = Vec::new();
    if let Some(f) = &t.active_form {
        out.push(
            line2(
                span("  Active: ".to_owned(), Style::fg(Tone::TextMuted)),
                span(f.clone(), Style::fg(Tone::TextPrimary)),
            ),
        );
    }
    if let Some(o) = &t.owner {
        out.push(
            line2(
                span("  Owner: ".to_owned(), Style::fg(Tone::TextMuted)),
                span(cat2("@", o.as_str()), Style::fg(Tone::TextSecondary)),
            ),
        );
    }
    assert(rows(out@) =~= owner_rows(*t));
    out
}

/// The agent works on the task: it has the task's id, or its description names
/// the owner.
pub open spec fn works_on(bt: BackgroundTask, t: Task) -> bool {
    bt.task_id@ == t.id@ || (t.owner is Some && has_text(bt.description@, t.owner->0@))
}

/// The first agent at or after `from` that works on the task.
pub open spec fn agent_on(tasks: Seq<BackgroundTask>, t: Task, from: int) -> Option<int>
    decreases tasks.len() - from,
{
    if from < 0 || from >= tasks.len() {
        None
    } else if works_on(tasks[from], t) {
        Some(from)
    } else {
        agent_on(tasks, t, from + 1)
    }
}

/// The agent that works on a task.
pub fn find_agent_on<'a>(tasks: &'a Vec<BackgroundTask>, t: &Task) -> (r: Option<&'a BackgroundTask>)
    ensures
        match agent_on(tasks@, *t, 0) {
            Some(i) => 0 <= i < tasks@.len() && r == Some(&tasks@[i]),
            None => r is None,
        },
{
    let mut i: usize = 0;
    while i < tasks.len()
        invariant
            i <= tasks@.len(),
            agent_on(tasks@, *t, 0) == agent_on(tasks@, *t, i as int),
        decreases tasks@.len() - i,
    {
        let named = match &t.owner {
            Some(o) => contains(tasks[i].description.as_str(), o.as_str()),
            None => false,
        };
        if same_text(tasks[i].task_id.as_str(), t.id.as_str()) || named {
            return Some(&tasks[i]);
        }
        i += 1;
    }
    None
}

/// What the task waits for.
pub open spec fn blocker_rows(t: Task) -> Seq<Row> {
    if t.blocked_by@.len() == 0 {
        Seq::empty()
    } else {
        seq![
            blank_row(),
            row2(
                ("  Blocked by: "@, Style::in_tone(Tone::TextMuted)),
                (joined(texts(t.blocked_by@), ", "@), Style::in_tone(Tone::Warning)),
            ),
        ]
    }
}

fn blocker_lines(t: &Task) -> (r: Vec<Line>)
    ensures
        rows(r@) == blocker_rows(*t),
{
    let mut out: Vec<Line> = Vec::new();
    if t.blocked_by.len() > 0 {
        out.push(blank_line());
        out.push(
            line2(
                span("  Blocked by: ".to_owned(), Style::fg(Tone::TextMuted)),
                span(join(&t.blocked_by, ", "), Style::fg(Tone::Warning)),
            ),
        );
    }
    assert(rows(out@) =~= blocker_rows(*t));
    out
}

/// The detail pane of a task.
pub open spec fn task_rows(t: Task, agents: Seq<BackgroundTask>, width: nat, now: Instant) -> Seq<Row> {
    let agent = match agent_on(agents, t, 0) {
        Some(i) => detail_rows(agents[i], width, now),
        None => Seq::empty(),
    };
    head_rows(t) + description_rows(t.description@, width) + owner_rows(t) + agent + blocker_rows(t)
}

/// The detail pane of a task: what it is, who works on it and how far that has
/// come, and what it waits for.
pub fn render_task_detail(task: &Task, agents: &Vec<BackgroundTask>, width: u16, now: Instant) -> (r: Vec<Line>)
    ensures
        rows(r@) == task_rows(*task, agents@, width as nat, now),
{
    let mut out: Vec<Line> = Vec::new();
    out.push(
        line2(
            span(cat3(" ", task.id.as_str(), " "), Style::fg(Tone::Accent).bold()),
            span(task.subject.clone(), Style::fg(Tone::TextPrimary).bold()),
        ),
    );
    out.push(blank_line());
    assert(rows(out@) =~= head_rows(*task));
    push_lines(&mut out, description_lines(&task.description, width));
    push_lines(&mut out, owner_lines(task));
    let ghost before = rows(out@);
    match find_agent_on(agents, task) {
        Some(bt) => {
            push_lines(&mut out, agent_detail_lines(bt, width, now));
        },
        None => {
            assert(before =~= before + Seq::<Row>::empty());
        },
    }
    push_lines(&mut out, blocker_lines(task));
    out
}

// ── widgets ─────────────────────────────────────────────────────────────

/// Rows for the widgets: one for each and two for the frame, but at least five
/// rows are left for the tasks, and no fewer than three are taken.
pub open spec fn widget_height(popup_height: int, row_count: nat) -> int {
    let wanted = if row_count as int % 0x10000 + 2 > u16::MAX {
        u16::MAX as int
    } else {
        row_count as int % 0x10000 + 2
    };
    let most = crate::layout::minus(popup_height, 5);
    let h = crate::layout::smaller(wanted, most);
    if h < 3 {
        3
    } else {
        h
    }
}

/// What the task list and the widgets below it ask for; nothing where there are
/// no widgets or the popup is too low.
pub open spec fn widget_parts_of(popup_height: int, row_count: nat) -> Option<Seq<Part>> {
    if row_count == 0 || popup_height < 8 {
        None
    } else {
        Some(seq![Part::Min(5), Part::Length(widget_height(popup_height, row_count) as u16)])
    }
}

/// What the task list and the widgets below it ask for.
pub fn widget_parts(popup_height: u16, row_count: usize) -> (r: Option<Vec<Part>>)
    ensures
        match r {
            Some(v) => widget_parts_of(popup_height as int, row_count as nat) == Some(v@),
            None => widget_parts_of(popup_height as int, row_count as nat) is None,
        },
{
    if row_count == 0 || popup_height < 8 {
        return None;
    }
    let low: u16 = (row_count % 0x10000) as u16;
    let wanted: u16 = low.saturating_add(2);
    let most: u16 = popup_height.saturating_sub(5);
    let h: u16 = if wanted <= most {
        wanted
    } else {
        most
    };
    let height: u16 = if h < 3 {
        3
    } else {
        h
    };
    let parts = vec![Part::Min(5), Part::Length(height)];
    assert(parts@ =~= seq![Part::Min(5), Part::Length(height)]);
    Some(parts)
}

/// Share the popup out between the task list and the widgets.
pub fn split_widget_area(popup: Rect, row_count: usize) -> (r: (Rect, Option<Rect>))
    requires
        popup.fits(),
    ensures
        r.1 is Some <==> widget_parts_of(popup.height as int, row_count as nat) is Some,
        r.1 is None ==> r.0 == popup,
        r.1 is Some ==> is_split(
            seq![r.0, r.1->0],
            popup,
            widget_parts_of(popup.height as int, row_count as nat)->0,
            Axis::Rows,
        ),
{
    match widget_parts(popup.height, row_count) {
        Some(parts) => {
            let rects = split_area(popup, &parts, Axis::Rows);
            assert(seq![rects@[0], rects@[1]] =~= rects@);
            (rects[0], Some(rects[1]))
        },
        None => (popup, None),
    }
}

/// The rows of the widgets.
pub open spec fn widget_lines_of(labels: Seq<Seq<char>>) -> Seq<Row> {
    labels.map_values(|l: Seq<char>| row1("  "@ + l, Style::in_tone(Tone::TextMuted)))
}

/// The widgets: the title of their frame and their rows. Nothing where there are
/// none.
pub fn render_task_panel_widgets(labels: &Vec<String>) -> (r: Option<(Span, Vec<Line>)>)
    ensures
        r is Some <==> labels@.len() > 0,
        r is Some ==> {
            &&& (r->0).0@ == (" Plugin widgets "@, Style::in_tone(Tone::TextMuted).made_bold())
            &&& rows((r->0).1@) == widget_lines_of(texts(labels@))
        },
{
    if labels.len() == 0 {
        return None;
    }
    let ghost all = widget_lines_of(texts(labels@));
    let mut out: Vec<Line> = Vec::new();
    let mut i: usize = 0;
    assert(rows(out@) =~= all.take(0));
    while i < labels.len()
        invariant
            i <= labels@.len(),
            all == widget_lines_of(texts(labels@)),
            rows(out@) == all.take(i as int),
        decreases labels@.len() - i,
    {
        assert(texts(labels@)[i as int] == labels@[i as int]@);
        out.push(line1(cat2("  ", labels[i].as_str()), Style::fg(Tone::TextMuted)));
        assert(all.take(i + 1) =~= all.take(i as int).push(all[i as int]));
        i += 1;
    }
    assert(all.take(i as int) =~= all);
    Some((span(" Plugin widgets ".to_owned(), Style::fg(Tone::TextMuted).bold()), out))
}

/// The detail of a task shows its id, its subject, its owner, what it is doing, and all
/// that blocks it.
pub proof fn law_details_show_the_task(t: Task, agents: Seq<BackgroundTask>, width: nat, now: Instant, k: int)
    ensures
        shows(task_rows(t, agents, width, now), t.id@),
        shows(task_rows(t, agents, width, now), t.subject@),
        t.owner is Some ==> shows(task_rows(t, agents, width, now), "@"@ + t.owner->0@),
        t.active_form is Some ==> shows(task_rows(t, agents, width, now), t.active_form->0@),
        0 <= k < t.blocked_by@.len() ==> shows(task_rows(t, agents, width, now), t.blocked_by@[k]@),
{
    let all = task_rows(t, agents, width, now);
    let head = head_rows(t);
    let described = description_rows(t.description@, width);
    let owner = owner_rows(t);
    assert(all[0] == head[0]);
    lemma_has_in_sum(" "@, t.id@, t.id@);
    lemma_has_in_sum(" "@ + t.id@, " "@, t.id@);
    lemma_row_has(all[0], 0, t.id@);
    lemma_has_itself(t.subject@);
    lemma_row_has(all[0], 1, t.subject@);
    let at = head.len() + described.len();
    if t.active_form is Some {
        let f = t.active_form->0@;
        assert(all[at as int] == owner[0]);
        lemma_has_itself(f);
        lemma_row_has(all[at as int], 1, f);
    }
    if t.owner is Some {
        let o = "@"@ + t.owner->0@;
        let j = at + owner.len() - 1;
        assert(all[j] == owner[owner.len() - 1]);
        lemma_has_itself(o);
        lemma_row_has(all[j], 1, o);
    }
    if 0 <= k < t.blocked_by@.len() {
        let names = texts(t.blocked_by@);
        let j = all.len() - 1;
        assert(all[j][1].0 == joined(names, ", "@));
        lemma_joined_has(names, ", "@, k);
        lemma_row_has(all[j], 1, names[k]);
    }
}

/// Of a description the first three lines are shown, as far as they fit, and that more
/// follows where there is more.
pub proof fn law_descriptions_begin_at_the_beginning(description: Seq<char>, width: nat, k: int)
    requires
        0 <= k < lines_of(description).len(),
        k < 3,
        description.len() > 0,
    ensures
        has_text(row_text(description_rows(description, width)[k]), shortened(lines_of(description)[k], less(width, 4))),
        lines_of(description).len() > 3 <==> description_rows(description, width).len() == 5,
{
    let all = lines_of(description);
    let line = shortened(all[k], less(width, 4));
    let rows = description_rows(description, width);
    assert(rows[k] == row1("  "@ + line, Style::in_tone(Tone::TextSecondary)));
    lemma_has_in_sum("  "@, line, line);
    lemma_row_has(rows[k], 0, line);
}

/// The agent on a task is the first that bears its id or names its owner.
pub proof fn law_the_agent_on_a_task_is_found(tasks: Seq<BackgroundTask>, t: Task, from: int, k: int)
    requires
        0 <= from <= k < tasks.len(),
        tasks[k].task_id@ == t.id@ || (t.owner is Some && has_text(tasks[k].description@, t.owner->0@)),
    ensures
        agent_on(tasks, t, from) matches Some(i) && from <= i <= k && works_on(tasks[i], t),
    decreases k - from,
{
    if !works_on(tasks[from], t) {
        law_the_agent_on_a_task_is_found(tasks, t, from + 1, k);
    }
}

/// A badge names the model shortly, and there is none without a name.
pub proof fn law_badges_need_a_name(name: Seq<char>)
    ensures
        model_badge(None) is None,
        model_badge(Some(name)) is Some == (trimmed(name).len() > 0),
        model_badge(Some(name)) is Some ==> model_badge(Some(name))->0.len() <= 20,
        trimmed(name).len() > 0 && bare_model(trimmed(name)).len() <= 20 ==> model_badge(Some(name)) == Some(
            bare_model(trimmed(name)),
        ),
{
    crate::fitting::law_shortened_fits(bare_model(trimmed(name)), 20);
}

/// Every widget has a line of its own, which shows its label.
pub proof fn law_every_widget_has_its_line(labels: Seq<Seq<char>>, k: int)
    requires
        0 <= k < labels.len(),
    ensures
        widget_lines_of(labels).len() == labels.len(),
        has_text(row_text(widget_lines_of(labels)[k]), labels[k]),
{
    let row = widget_lines_of(labels)[k];
    lemma_has_in_sum("  "@, labels[k], labels[k]);
    lemma_row_has(row, 0, labels[k]);
}

/// The widgets take the rows they need and two for the frame, as long as five are left,
/// and never fewer than three.
pub proof fn law_widgets_leave_room_for_the_tasks(popup_height: int, row_count: nat)
    requires
        row_count < 1000,
    ensures
        widget_height(popup_height, row_count) >= 3,
        popup_height >= 8 ==> widget_height(popup_height, row_count) <= popup_height - 5,
        1 <= row_count <= popup_height - 7 ==> widget_height(popup_height, row_count) == row_count + 2,
        row_count > popup_height - 7 && popup_height >= 8 ==> widget_height(popup_height, row_count) == popup_height - 5,
{
}

} // verus!
