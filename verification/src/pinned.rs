//! The short task list that is pinned above the input.
//!
//! A header, a line for what was just completed, the tasks being worked on, the
//! tasks that wait, and a footer where not all of them fit.
use vstd::prelude::*;

use crate::bytes_len::{bytes_up_to, utf8_size};
use crate::fitting::{shortened, truncate_str};
use crate::order::{lemma_sorted_map, rank_order, sort_stable, sorted, text_before, text_is_before, Ranked};
use crate::showing::{lemma_has_in_sum, lemma_has_itself, lemma_joined_has, lemma_row_has, row_text, shows};
use crate::slicing::{group_texts, has_text, join, joined, opt_text, texts};
use crate::styled::{group_rows, line1, line3, line4, row1, row3, row4, rows, span, Line, Style, Tone};
use crate::tasks::{Task, TaskStatus};
use crate::text::{cat2, cat3, cat5, count_text, decimal, same_text};
use crate::text_map::TextMap;
use crate::time::Instant;

verus! {

broadcast use {group_texts, group_rows};

/// A row as spans.
pub type Row = Seq<(Seq<char>, Style)>;

/// How long a completed task is shown, in seconds.
pub const JUST_DONE_SECS: u64 = 30;

// ── which tasks ─────────────────────────────────────────────────────────

/// The task was completed a moment ago.
pub open spec fn just_done(t: Task, done_at: Map<Seq<char>, Instant>, now: Instant) -> bool {
    t.status == TaskStatus::Completed && done_at.contains_key(t.id@) && now.since(done_at[t.id@])
        / 1_000_000_000 < JUST_DONE_SECS
}

/// How many of the tasks were completed a moment ago.
pub open spec fn just_done_count(tasks: Seq<Task>, done_at: Map<Seq<char>, Instant>, now: Instant) -> nat
    decreases tasks.len(),
{
    if tasks.len() == 0 {
        0
    } else {
        just_done_count(tasks.drop_last(), done_at, now) + if just_done(tasks.last(), done_at, now) {
            1nat
        } else {
            0nat
        }
    }
}

/// How many of the tasks are open.
pub open spec fn open_count(tasks: Seq<Task>) -> nat
    decreases tasks.len(),
{
    if tasks.len() == 0 {
        0
    } else {
        open_count(tasks.drop_last()) + if tasks.last().status.open() {
            1nat
        } else {
            0nat
        }
    }
}

/// How many of the tasks were completed within the last thirty seconds.
pub fn recently_done(tasks: &Vec<Task>, done_at: &TextMap<Instant>, now: Instant) -> (r: usize)
    ensures
        r == just_done_count(tasks@, done_at@, now),
{
    let mut count: usize = 0;
    let mut i: usize = 0;
    assert(tasks@.take(0) =~= Seq::<Task>::empty());
    while i < tasks.len()
        invariant
            i <= tasks@.len(),
            count <= i,
            count == just_done_count(tasks@.take(i as int), done_at@, now),
        decreases tasks@.len() - i,
    {
        assert(tasks@.take(i + 1).drop_last() =~= tasks@.take(i as int));
        let done = match done_at.get(tasks[i].id.as_str()) {
            Some(at) => now.duration_since(*at).as_secs() < JUST_DONE_SECS,
            None => false,
        };
        if tasks[i].status == TaskStatus::Completed && done {
            count += 1;
        }
        i += 1;
    }
    assert(tasks@.take(i as int) =~= tasks@);
    count
}

/// How many of the tasks are open.
pub fn still_open(tasks: &Vec<Task>) -> (r: usize)
    ensures
        r == open_count(tasks@),
{
    let mut count: usize = 0;
    let mut i: usize = 0;
    assert(tasks@.take(0) =~= Seq::<Task>::empty());
    while i < tasks.len()
        invariant
            i <= tasks@.len(),
            count <= i,
            count == open_count(tasks@.take(i as int)),
        decreases tasks@.len() - i,
    {
        assert(tasks@.take(i + 1).drop_last() =~= tasks@.take(i as int));
        if tasks[i].status.is_open() {
            count += 1;
        }
        i += 1;
    }
    assert(tasks@.take(i as int) =~= tasks@);
    count
}

/// A task of that id has been completed.
pub open spec fn is_done(tasks: Seq<Task>, id: Seq<char>) -> bool {
    exists|i: int|
        0 <= i < tasks.len() && (#[trigger] tasks[i]).status == TaskStatus::Completed && tasks[i].id@ == id
}

fn is_done_id(tasks: &Vec<Task>, id: &str) -> (r: bool)
    ensures
        r == is_done(tasks@, id@),
{
    let mut i: usize = 0;
    while i < tasks.len()
        invariant
            i <= tasks@.len(),
            forall|j: int|
                0 <= j < i ==> !((#[trigger] tasks@[j]).status == TaskStatus::Completed && tasks@[j].id@
                    == id@),
        decreases tasks@.len() - i,
    {
        if tasks[i].status == TaskStatus::Completed && same_text(tasks[i].id.as_str(), id) {
            return true;
        }
        i += 1;
    }
    false
}

/// Those of `ids` that have not been completed.
pub open spec fn unmet(tasks: Seq<Task>, ids: Seq<Seq<char>>) -> Seq<Seq<char>>
    decreases ids.len(),
{
    if ids.len() == 0 {
        ids
    } else if is_done(tasks, ids.last()) {
        unmet(tasks, ids.drop_last())
    } else {
        unmet(tasks, ids.drop_last()).push(ids.last())
    }
}

fn open_blockers(tasks: &Vec<Task>, ids: &Vec<String>) -> (r: Vec<String>)
    ensures
        texts(r@) == unmet(tasks@, texts(ids@)),
{
    let ghost all = texts(ids@);
    let mut out: Vec<String> = Vec::new();
    let mut i: usize = 0;
    assert(texts(out@) =~= unmet(tasks@, all.take(0)));
    while i < ids.len()
        invariant
            i <= ids@.len(),
            all == texts(ids@),
            texts(out@) == unmet(tasks@, all.take(i as int)),
        decreases ids@.len() - i,
    {
        assert(all.take(i + 1).drop_last() =~= all.take(i as int));
        assert(all.take(i + 1).last() == ids@[i as int]@);
        if !is_done_id(tasks, ids[i].as_str()) {
            out.push(ids[i].clone());
        }
        i += 1;
    }
    assert(all.take(i as int) =~= all);
    out
}

// ── tasks being worked on ───────────────────────────────────────────────

/// The task that the eye is drawn to: the one the active agent works on, else
/// the first.
pub open spec fn is_focal(t: Task, position: nat, active: Option<Seq<char>>) -> bool {
    match active {
        Some(id) => t.id@ == id,
        None => position == 0,
    }
}

/// The rows of a task being worked on.
pub open spec fn running_rows(t: Task, focal: bool, width: nat) -> Seq<Row> {
    let (sign, name) = if focal {
        (Style::in_tone(Tone::Accent).made_bold(), Style::in_tone(Tone::TextPrimary).made_bold())
    } else {
        (Style::in_tone(Tone::AccentSecondary), Style::in_tone(Tone::TextSecondary).made_bold())
    };
    let row = row3(
        ("  "@, Style::plain_style()),
        ("■ "@, sign),
        (shortened(t.subject@, less(width, 5)), name),
    );
    match opt_text(t.active_form) {
        Some(form) if focal && form != t.subject@ => seq![
            row,
            row3(
                ("    "@, Style::plain_style()),
                (shortened(form, less(width, 7)), Style::in_tone(Tone::TextMuted).made_italic()),
                ("…"@, Style::in_tone(Tone::TextMuted)),
            ),
        ],
        _ => seq![row],
    }
}

/// `a - b`, or nothing left.
pub open spec fn less(a: nat, b: nat) -> nat {
    if a >= b {
        (a - b) as nat
    } else {
        0
    }
}

fn running_lines(t: &Task, focal: bool, width: usize) -> (r: Vec<Line>)
    ensures
        rows(r@) == running_rows(*t, focal, width as nat),
{
    let (sign, name) = if focal {
        (Style::fg(Tone::Accent).bold(), Style::fg(Tone::TextPrimary).bold())
    } else {
        (Style::fg(Tone::AccentSecondary), Style::fg(Tone::TextSecondary).bold())
    };
    let mut out: Vec<Line> = Vec::new();
    out.push(
        line3(
            span("  ".to_owned(), Style::plain()),
            span("■ ".to_owned(), sign),
            span(truncate_str(t.subject.as_str(), width.saturating_sub(5)), name),
        ),
    );
    match &t.active_form {
        Some(form) => {
            if focal && !same_text(form.as_str(), t.subject.as_str()) {
                out.push(
                    line3(
                        span("    ".to_owned(), Style::plain()),
                        span(
                            truncate_str(form.as_str(), width.saturating_sub(7)),
                            Style::fg(Tone::TextMuted).italic(),
                        ),
                        span("…".to_owned(), Style::fg(Tone::TextMuted)),
                    ),
                );
            }
        },
        None => {},
    }
    assert(rows(out@) =~= running_rows(*t, focal, width as nat));
    out
}

/// The entries of the tasks being worked on, in the order of the list.
pub open spec fn running_entries(tasks: Seq<Task>, active: Option<Seq<char>>, width: nat) -> Seq<Seq<Row>>
    decreases tasks.len(),
{
    if tasks.len() == 0 {
        Seq::empty()
    } else {
        let before = running_entries(tasks.drop_last(), active, width);
        if tasks.last().status == TaskStatus::InProgress {
            before.push(running_rows(tasks.last(), is_focal(tasks.last(), before.len(), active), width))
        } else {
            before
        }
    }
}

/// What a list of entries shows.
pub open spec fn entries_of(v: Seq<Vec<Line>>) -> Seq<Seq<Row>> {
    v.map_values(|e: Vec<Line>| rows(e@))
}

proof fn lemma_entries_push(v: Seq<Vec<Line>>, e: Vec<Line>)
    ensures
        entries_of(v.push(e)) == entries_of(v).push(rows(e@)),
{
    assert(entries_of(v.push(e)) =~= entries_of(v).push(rows(e@)));
}

fn running_list(tasks: &Vec<Task>, active: &Option<String>, width: usize) -> (r: Vec<Vec<Line>>)
    ensures
        entries_of(r@) == running_entries(tasks@, opt_text(*active), width as nat),
{
    let mut out: Vec<Vec<Line>> = Vec::new();
    let mut i: usize = 0;
    assert(tasks@.take(0) =~= Seq::<Task>::empty());
    assert(entries_of(out@) =~= running_entries(tasks@.take(0), opt_text(*active), width as nat));
    while i < tasks.len()
        invariant
            i <= tasks@.len(),
            entries_of(out@) == running_entries(tasks@.take(i as int), opt_text(*active), width as nat),
        decreases tasks@.len() - i,
    {
        assert(tasks@.take(i + 1).drop_last() =~= tasks@.take(i as int));
        if tasks[i].status == TaskStatus::InProgress {
            let focal = match active {
                Some(id) => same_text(tasks[i].id.as_str(), id.as_str()),
                None => out.len() == 0,
            };
            let entry = running_lines(&tasks[i], focal, width);
            proof {
                lemma_entries_push(out@, entry);
            }
            out.push(entry);
        }
        i += 1;
    }
    assert(tasks@.take(i as int) =~= tasks@);
    out
}

// ── tasks that wait ─────────────────────────────────────────────────────

/// A task that waits, with what it waits for.
pub struct Waiting<'a> {
    pub task: &'a Task,
    pub blockers: Vec<String>,
}

/// What a waiting task shows.
pub open spec fn waiting_model<'a>(w: Waiting<'a>) -> (Task, Seq<Seq<char>>) {
    (*w.task, texts(w.blockers@))
}

/// Tasks that wait for nothing come first; then the ids decide.
pub open spec fn waits_before(a: (Task, Seq<Seq<char>>), b: (Task, Seq<Seq<char>>)) -> bool {
    if (a.1.len() > 0) != (b.1.len() > 0) {
        a.1.len() == 0
    } else {
        text_before(a.0.id@, b.0.id@)
    }
}

/// The order of the tasks that wait.
pub open spec fn waiting_order() -> spec_fn((Task, Seq<Seq<char>>), (Task, Seq<Seq<char>>)) -> bool {
    |a: (Task, Seq<Seq<char>>), b: (Task, Seq<Seq<char>>)| waits_before(a, b)
}

impl<'a> Ranked for Waiting<'a> {
    open spec fn before(&self, other: &Self) -> bool {
        waits_before(waiting_model(*self), waiting_model(*other))
    }

    fn is_before(&self, other: &Self) -> (r: bool) {
        let (a, b) = (self.blockers.len() > 0, other.blockers.len() > 0);
        if a != b {
            !a
        } else {
            text_is_before(self.task.id.as_str(), other.task.id.as_str())
        }
    }
}

/// The tasks of `some` that wait, with what they wait for.
pub open spec fn waiting_tasks(tasks: Seq<Task>, some: Seq<Task>) -> Seq<(Task, Seq<Seq<char>>)>
    decreases some.len(),
{
    if some.len() == 0 {
        Seq::empty()
    } else {
        let t = some.last();
        let before = waiting_tasks(tasks, some.drop_last());
        if t.status.open() && t.status != TaskStatus::InProgress {
            before.push((t, unmet(tasks, texts(t.blocked_by@))))
        } else {
            before
        }
    }
}

/// What a list of waiting tasks shows.
pub open spec fn waiting_models<'a>(v: Seq<Waiting<'a>>) -> Seq<(Task, Seq<Seq<char>>)> {
    v.map_values(|w: Waiting<'a>| waiting_model(w))
}

fn waiting_list<'a>(tasks: &'a Vec<Task>) -> (r: Vec<Waiting<'a>>)
    ensures
        waiting_models(r@) == sorted(waiting_tasks(tasks@, tasks@), waiting_order()),
{
    let mut out: Vec<Waiting<'a>> = Vec::new();
    let mut i: usize = 0;
    assert(tasks@.take(0) =~= Seq::<Task>::empty());
    assert(waiting_models(out@) =~= waiting_tasks(tasks@, tasks@.take(0)));
    while i < tasks.len()
        invariant
            i <= tasks@.len(),
            waiting_models(out@) == waiting_tasks(tasks@, tasks@.take(i as int)),
        decreases tasks@.len() - i,
    {
        assert(tasks@.take(i + 1).drop_last() =~= tasks@.take(i as int));
        if tasks[i].status.is_open() && tasks[i].status != TaskStatus::InProgress {
            let w = Waiting { task: &tasks[i], blockers: open_blockers(tasks, &tasks[i].blocked_by) };
            let ghost before = out@;
            out.push(w);
            assert(waiting_models(out@) =~= waiting_models(before).push(waiting_model(w)));
        }
        i += 1;
    }
    assert(tasks@.take(i as int) =~= tasks@);
    proof {
        lemma_sorted_map(
            out@,
            |w: Waiting<'a>| waiting_model(w),
            rank_order::<Waiting<'a>>(),
            waiting_order(),
        );
    }
    sort_stable(out)
}

/// What a task is said to wait for.
pub open spec fn blocker_note(t: Task, blockers: Seq<Seq<char>>) -> Seq<char> {
    if t.status == TaskStatus::Blocked || blockers.len() > 0 {
        " · blocked by "@ + joined(blockers, ", "@)
    } else {
        Seq::empty()
    }
}

/// The row of a task that waits.
pub open spec fn waiting_row(t: Task, blockers: Seq<Seq<char>>, width: nat) -> Row {
    let blocked = t.status == TaskStatus::Blocked || blockers.len() > 0;
    let tone = if blocked {
        Tone::TextMuted
    } else {
        Tone::TextSecondary
    };
    let note = blocker_note(t, blockers);
    row4(
        ("  "@, Style::plain_style()),
        (t.status.sign() + " "@, Style::in_tone(tone)),
        (shortened(t.subject@, less(width, 5 + utf8_size(note))), Style::in_tone(tone)),
        (note, Style::in_tone(Tone::TextMuted).made_italic()),
    )
}

fn waiting_line<'a>(w: &Waiting<'a>, width: usize) -> (r: Line)
    requires
        width <= 0xffff,
    ensures
        r@ == waiting_row(*w.task, texts(w.blockers@), width as nat),
{
    let blocked = w.task.status == TaskStatus::Blocked || w.blockers.len() > 0;
    let tone = if blocked {
        Tone::TextMuted
    } else {
        Tone::TextSecondary
    };
    let note = if blocked {
        cat2(" · blocked by ", join(&w.blockers, ", ").as_str())
    } else {
        String::new()
    };
    assert(note@ =~= blocker_note(*w.task, texts(w.blockers@)));
    let size: usize = bytes_up_to(note.as_str(), 0x10000) as usize;
    line4(
        span("  ".to_owned(), Style::plain()),
        span(cat2(w.task.status.glyph(), " "), Style::fg(tone)),
        span(truncate_str(w.task.subject.as_str(), width.saturating_sub(5 + size)), Style::fg(tone)),
        span(note, Style::fg(Tone::TextMuted).italic()),
    )
}

/// The entries of the tasks that wait.
pub open spec fn waiting_entries(waiting: Seq<(Task, Seq<Seq<char>>)>, width: nat) -> Seq<Seq<Row>> {
    waiting.map_values(|w: (Task, Seq<Seq<char>>)| seq![waiting_row(w.0, w.1, width)])
}

fn push_waiting(out: &mut Vec<Vec<Line>>, tasks: &Vec<Task>, width: usize)
    requires
        width <= 0xffff,
    ensures
        entries_of(final(out)@) == entries_of(old(out)@) + waiting_entries(
            sorted(waiting_tasks(tasks@, tasks@), waiting_order()),
            width as nat,
        ),
{
    let waiting = waiting_list(tasks);
    let ghost models = waiting_models(waiting@);
    let ghost all = waiting_entries(models, width as nat);
    let ghost before = entries_of(out@);
    let mut i: usize = 0;
    assert(entries_of(out@) =~= before + all.take(0));
    while i < waiting.len()
        invariant
            i <= waiting@.len(),
            width <= 0xffff,
            models == waiting_models(waiting@),
            all == waiting_entries(models, width as nat),
            entries_of(out@) == before + all.take(i as int),
        decreases waiting@.len() - i,
    {
        let line = waiting_line(&waiting[i], width);
        let mut entry: Vec<Line> = Vec::new();
        entry.push(line);
        assert(rows(entry@) =~= all[i as int]);
        proof {
            lemma_entries_push(out@, entry);
        }
        out.push(entry);
        assert(before + all.take(i + 1) =~= (before + all.take(i as int)).push(all[i as int]));
        i += 1;
    }
    assert(all.take(i as int) =~= all);
}

// ── fitting ─────────────────────────────────────────────────────────────

/// The rows of the entries as far as `room` rows go, and how many entries have
/// at least one row there.
pub open spec fn fitted(entries: Seq<Seq<Row>>, room: nat) -> (Seq<Row>, nat)
    decreases entries.len(),
{
    if entries.len() == 0 {
        (Seq::empty(), 0)
    } else {
        let (shown, count) = fitted(entries.drop_last(), room);
        let entry = entries.last();
        if shown.len() >= room {
            (shown, count)
        } else if shown.len() + entry.len() <= room {
            (shown + entry, count + 1)
        } else {
            (shown + entry.take(room - shown.len()), count + 1)
        }
    }
}

fn fit_entries(entries: &Vec<Vec<Line>>, room: usize) -> (r: (Vec<Line>, usize))
    ensures
        (rows(r.0@), r.1 as nat) == fitted(entries_of(entries@), room as nat),
        r.0@.len() <= room,
        r.1 <= entries@.len(),
{
    let ghost all = entries_of(entries@);
    let mut shown: Vec<Line> = Vec::new();
    let mut count: usize = 0;
    let mut i: usize = 0;
    assert(rows(shown@) =~= fitted(all.take(0), room as nat).0);
    while i < entries.len()
        invariant
            i <= entries@.len(),
            all == entries_of(entries@),
            count <= i,
            shown@.len() <= room,
            rows(shown@).len() == shown@.len(),
            (rows(shown@), count as nat) == fitted(all.take(i as int), room as nat),
        decreases entries@.len() - i,
    {
        assert(all.take(i + 1).drop_last() =~= all.take(i as int));
        assert(all.take(i + 1).last() == rows(entries@[i as int]@));
        if shown.len() < room {
            let ghost before = rows(shown@);
            let entry: &Vec<Line> = &entries[i];
            let ghost model = rows(entry@);
            let mut k: usize = 0;
            assert(rows(shown@) =~= before + model.take(0));
            while k < entry.len() && shown.len() < room
                invariant
                    k <= entry@.len(),
                    model == rows(entry@),
                    before.len() + k == shown@.len(),
                    shown@.len() <= room,
                    rows(shown@) == before + model.take(k as int),
                decreases entry@.len() - k,
            {
                let ghost so_far = shown@;
                shown.push(entry[k].clone());
                assert(model.take(k + 1) =~= model.take(k as int).push(model[k as int]));
                assert(rows(shown@) =~= before + model.take(k + 1));
                k += 1;
            }
            count += 1;
            proof {
                if before.len() + model.len() <= room {
                    assert(model.take(k as int) =~= model);
                } else {
                    assert(k == room - before.len());
                }
            }
        }
        i += 1;
    }
    assert(all.take(i as int) =~= all);
    (shown, count)
}

/// The rows of the entries in `room` rows. Where not every entry has a row, the
/// last row says how many are missing; a single row stays free of that.
pub open spec fn with_footer(entries: Seq<Seq<Row>>, room: nat) -> Seq<Row> {
    let (shown, count) = fitted(entries, room);
    if count >= entries.len() || room < 1 {
        shown
    } else {
        let (kept, few) = fitted(entries, (room - 1) as nat);
        kept.push(footer_row((entries.len() - few) as nat))
    }
}

/// The row that says how many open tasks are not shown.
pub open spec fn footer_row(hidden: nat) -> Row {
    row1(
        "  … +"@ + decimal(hidden) + " more · open /tasks for the full list"@,
        Style::in_tone(Tone::TextMuted).made_italic(),
    )
}

fn fit_with_footer(entries: &Vec<Vec<Line>>, room: usize) -> (r: Vec<Line>)
    ensures
        rows(r@) == with_footer(entries_of(entries@), room as nat),
{
    let (shown, count) = fit_entries(entries, room);
    if count >= entries.len() || room < 1 {
        shown
    } else {
        let (kept, few) = fit_entries(entries, room - 1);
        let mut out = kept;
        out.push(
            line1(
                cat3(
                    "  … +",
                    count_text(entries.len() - few).as_str(),
                    " more · open /tasks for the full list",
                ),
                Style::fg(Tone::TextMuted).italic(),
            ),
        );
        out
    }
}

// ── the list ────────────────────────────────────────────────────────────

/// The header: `3 tasks (1 done, 2 open)`, or `2 tasks (2 open)` where nothing
/// was just completed.
pub open spec fn header_row(done: nat, open: nat) -> Row {
    let total = done + open;
    let word = if total == 1 {
        " task"@
    } else {
        " tasks"@
    };
    let summary = if done > 0 {
        " ("@ + decimal(done) + " done, "@ + decimal(open) + " open)"@
    } else {
        " ("@ + decimal(open) + " open)"@
    };
    row3(
        ("  "@, Style::plain_style()),
        (decimal(total) + word, Style::in_tone(Tone::TextSecondary).made_bold()),
        (summary, Style::in_tone(Tone::TextMuted)),
    )
}

/// The header line of the pinned list.
pub fn tasks_pinned_header_line(done: usize, open: usize) -> (r: Line)
    requires
        done + open <= usize::MAX,
    ensures
        r@ == header_row(done as nat, open as nat),
{
    let total: usize = done + open;
    let word = if total == 1 {
        " task"
    } else {
        " tasks"
    };
    let summary = if done > 0 {
        cat5(" (", count_text(done).as_str(), " done, ", count_text(open).as_str(), " open)")
    } else {
        cat3(" (", count_text(open).as_str(), " open)")
    };
    line3(
        span("  ".to_owned(), Style::plain()),
        span(cat2(count_text(total).as_str(), word), Style::fg(Tone::TextSecondary).bold()),
        span(summary, Style::fg(Tone::TextMuted)),
    )
}

/// A line that says what was completed.
pub open spec fn done_row(label: Seq<char>) -> Row {
    row3(
        ("  "@, Style::plain_style()),
        ("✓ "@, Style::in_tone(Tone::Success)),
        (label, Style::in_tone(Tone::Success)),
    )
}

fn done_line(label: String) -> (r: Line)
    ensures
        r@ == done_row(label@),
{
    line3(
        span("  ".to_owned(), Style::plain()),
        span("✓ ".to_owned(), Style::fg(Tone::Success)),
        span(label, Style::fg(Tone::Success)),
    )
}

/// The rows in front of the tasks: the header and, where there is room, what
/// was just completed.
pub open spec fn head_rows(done: nat, open: nat, height: nat) -> Seq<Row> {
    if done > 0 && height > 1 {
        seq![header_row(done, open), done_row(decimal(done) + " just completed"@)]
    } else {
        seq![header_row(done, open)]
    }
}

/// The pinned list: nothing where no task is open and none was just completed,
/// one line where only completed ones are left, and otherwise the tasks.
pub open spec fn pinned_rows(
    tasks: Seq<Task>,
    done_at: Map<Seq<char>, Instant>,
    active: Option<Seq<char>>,
    width: nat,
    height: nat,
    now: Instant,
) -> Seq<Row> {
    let done = just_done_count(tasks, done_at, now);
    let open = open_count(tasks);
    if height == 0 || width < 10 || (open == 0 && done == 0) {
        Seq::empty()
    } else if open == 0 {
        let label = if done == 1 {
            "1 task done"@
        } else {
            decimal(done) + " tasks done"@
        };
        seq![done_row(label)]
    } else {
        let head = head_rows(done, open, height);
        let entries = running_entries(tasks, active, width) + waiting_entries(
            sorted(waiting_tasks(tasks, tasks), waiting_order()),
            width,
        );
        head + with_footer(entries, (height - head.len()) as nat)
    }
}

/// The pinned list of tasks, with `active` the task that the active agent works
/// on.
pub fn tasks_pinned_row(
    tasks: &Vec<Task>,
    done_at: &TextMap<Instant>,
    active: &Option<String>,
    width: u16,
    height: u16,
    now: Instant,
) -> (r: Vec<Line>)
    ensures
        rows(r@) == pinned_rows(
            tasks@,
            done_at@,
            opt_text(*active),
            width as nat,
            height as nat,
            now,
        ),
{
    let mut out: Vec<Line> = Vec::new();
    if height == 0 || width < 10 {
        return out;
    }
    let done: usize = recently_done(tasks, done_at, now);
    let open: usize = still_open(tasks);
    let count: usize = tasks.len();
    proof {
        lemma_open_or_done(tasks@, done_at@, now);
        assert(done + open <= count);
    }
    if open == 0 && done == 0 {
        return out;
    }
    if open == 0 {
        let label = if done == 1 {
            "1 task done".to_owned()
        } else {
            cat2(count_text(done).as_str(), " tasks done")
        };
        out.push(done_line(label));
        assert(rows(out@) =~= seq![out@[0]@]);
        return out;
    }
    out.push(tasks_pinned_header_line(done, open));
    if done > 0 && height > 1 {
        out.push(done_line(cat2(count_text(done).as_str(), " just completed")));
    }
    assert(rows(out@) =~= head_rows(done as nat, open as nat, height as nat));
    let mut entries = running_list(tasks, active, width as usize);
    push_waiting(&mut entries, tasks, width as usize);
    let room: usize = height as usize - out.len();
    let more = fit_with_footer(&entries, room);
    crate::styled::push_lines(&mut out, more);
    out
}

proof fn lemma_open_or_done(tasks: Seq<Task>, done_at: Map<Seq<char>, Instant>, now: Instant)
    ensures
        just_done_count(tasks, done_at, now) + open_count(tasks) <= tasks.len(),
    decreases tasks.len(),
{
    if tasks.len() > 0 {
        lemma_open_or_done(tasks.drop_last(), done_at, now);
    }
}

proof fn lemma_fitted_len(entries: Seq<Seq<Row>>, room: nat)
    ensures
        fitted(entries, room).0.len() <= room,
        fitted(entries, room).1 <= entries.len(),
    decreases entries.len(),
{
    if entries.len() > 0 {
        lemma_fitted_len(entries.drop_last(), room);
    }
}

/// The pinned list never takes more rows than it was given.
pub proof fn law_pinned_list_fits(
    tasks: Seq<Task>,
    done_at: Map<Seq<char>, Instant>,
    active: Option<Seq<char>>,
    width: nat,
    height: nat,
    now: Instant,
)
    ensures
        pinned_rows(tasks, done_at, active, width, height, now).len() <= height,
{
    let done = just_done_count(tasks, done_at, now);
    let open = open_count(tasks);
    if height > 0 && width >= 10 && open > 0 {
        let head = head_rows(done, open, height);
        let entries = running_entries(tasks, active, width) + waiting_entries(
            sorted(waiting_tasks(tasks, tasks), waiting_order()),
            width,
        );
        let room = (height - head.len()) as nat;
        lemma_fitted_len(entries, room);
        if room > 0 {
            lemma_fitted_len(entries, (room - 1) as nat);
        }
    }
}

/// A task waits for exactly those of its blockers that are not done.
pub proof fn law_only_open_blockers_block(tasks: Seq<Task>, ids: Seq<Seq<char>>, id: Seq<char>)
    ensures
        unmet(tasks, ids).contains(id) <==> ids.contains(id) && !(exists|i: int|
            0 <= i < tasks.len() && (#[trigger] tasks[i]).status == TaskStatus::Completed && tasks[i].id@ == id),
    decreases ids.len(),
{
    if ids.len() > 0 {
        let front = ids.drop_last();
        law_only_open_blockers_block(tasks, front, id);
        let all = unmet(tasks, ids);
        let before = unmet(tasks, front);
        assert(ids =~= front.push(ids.last()));
        if ids.contains(id) {
            let k = choose|k: int| 0 <= k < ids.len() && ids[k] == id;
            if k < front.len() {
                assert(front[k] == id);
            }
        }
        if front.contains(id) {
            let k = choose|k: int| 0 <= k < front.len() && front[k] == id;
            assert(ids[k] == id);
        }
        if before.contains(id) {
            let k = choose|k: int| 0 <= k < before.len() && before[k] == id;
            assert(all[k] == id);
        }
        if all.contains(id) {
            let k = choose|k: int| 0 <= k < all.len() && all[k] == id;
            if k < before.len() {
                assert(before[k] == id);
            } else {
                assert(id == ids.last());
                assert(ids[ids.len() - 1] == id);
            }
        }
        if id == ids.last() && !is_done(tasks, id) {
            assert(all[all.len() - 1] == id);
        }
        if id == ids.last() {
            assert(ids[ids.len() - 1] == id);
        }
    }
}

/// A task that has to wait names all that it waits for.
pub proof fn law_blockers_are_named(t: Task, blockers: Seq<Seq<char>>, width: nat, k: int)
    requires
        0 <= k < blockers.len(),
    ensures
        has_text(row_text(waiting_row(t, blockers, width)), blockers[k]),
        has_text(row_text(waiting_row(t, blockers, width)), "blocked by "@),
{
    lemma_note_has(t, blockers, k);
    let row = waiting_row(t, blockers, width);
    lemma_row_has(row, 3, blockers[k]);
    lemma_row_has(row, 3, "blocked by "@);
}

proof fn lemma_note_has(t: Task, blockers: Seq<Seq<char>>, k: int)
    requires
        0 <= k < blockers.len(),
    ensures
        has_text(blocker_note(t, blockers), blockers[k]),
        has_text(blocker_note(t, blockers), "blocked by "@),
{
    let names = joined(blockers, ", "@);
    lemma_joined_has(blockers, ", "@, k);
    lemma_has_in_sum(" · blocked by "@, names, blockers[k]);
    lemma_blocked_by();
    lemma_has_in_sum(" · blocked by "@, names, "blocked by "@);
}

proof fn lemma_blocked_by()
    ensures
        has_text(" · blocked by "@, "blocked by "@),
{
    reveal_strlit(" · blocked by ");
    reveal_strlit("blocked by ");
    assert(" · blocked by "@.subrange(3, 14) =~= "blocked by "@);
    assert(crate::slicing::occurs_at(" · blocked by "@, "blocked by "@, 3));
}

/// The heading counts what is open, and what was just done.
pub proof fn law_heading_counts_tasks(done: nat, open: nat)
    ensures
        has_text(row_text(header_row(done, open)), decimal(done + open) + " task"@),
        has_text(row_text(header_row(done, open)), decimal(open) + " open"@),
        done > 0 ==> has_text(row_text(header_row(done, open)), decimal(done) + " done"@),
{
    let row = header_row(done, open);
    let total = decimal(done + open);
    reveal_strlit(" task");
    reveal_strlit(" tasks");
    reveal_strlit(" open");
    reveal_strlit(" open)");
    reveal_strlit(" done");
    reveal_strlit(" done, ");
    reveal_strlit(" (");
    let w = total + " task"@;
    assert(row[1].0.subrange(0, w.len() as int) =~= w);
    assert(crate::slicing::occurs_at(row[1].0, w, 0));
    lemma_row_has(row, 1, w);
    let o = decimal(open) + " open"@;
    let s = row[2].0;
    if done > 0 {
        let d = decimal(done) + " done"@;
        assert(s.subrange(2, 2int + d.len()) =~= d);
        assert(crate::slicing::occurs_at(s, d, 2));
        lemma_row_has(row, 2, d);
        let at: int = 2int + decimal(done).len() + 7;
        assert(s.subrange(at, at + o.len()) =~= o);
        assert(crate::slicing::occurs_at(s, o, at));
    } else {
        assert(s.subrange(2, 2int + o.len()) =~= o);
        assert(crate::slicing::occurs_at(s, o, 2));
    }
    lemma_row_has(row, 2, o);
}

proof fn lemma_fitted_all(entries: Seq<Seq<Row>>, room: nat, k: int, r: int)
    requires
        forall|i: int| 0 <= i < entries.len() ==> 0 < (#[trigger] entries[i]).len() <= 2,
        2 * entries.len() <= room,
    ensures
        fitted(entries, room).1 == entries.len(),
        fitted(entries, room).0.len() <= 2 * entries.len(),
        0 <= k < entries.len() && 0 <= r < entries[k].len() ==> fitted(entries, room).0.contains(entries[k][r]),
    decreases entries.len(),
{
    if entries.len() > 0 {
        let front = entries.drop_last();
        assert forall|i: int| 0 <= i < front.len() implies 0 < (#[trigger] front[i]).len() <= 2 by {
            assert(front[i] == entries[i]);
        }
        lemma_fitted_all(front, room, k, r);
        let shown = fitted(front, room).0;
        let all = fitted(entries, room).0;
        let last = entries[entries.len() - 1];
        assert(last.len() <= 2);
        assert(all == shown + entries.last());
        if 0 <= k < entries.len() && 0 <= r < entries[k].len() {
            if k < front.len() {
                assert(front[k] == entries[k]);
                let j = choose|j: int| 0 <= j < shown.len() && shown[j] == entries[k][r];
                assert(all[j] == entries[k][r]);
            } else {
                assert(all[shown.len() + r] == entries[k][r]);
            }
        }
    }
}

proof fn lemma_running_entries(tasks: Seq<Task>, active: Option<Seq<char>>, width: nat)
    ensures
        running_entries(tasks, active, width).len() <= tasks.len(),
        forall|i: int|
            0 <= i < running_entries(tasks, active, width).len() ==> 0 < (#[trigger] running_entries(
                tasks,
                active,
                width,
            )[i]).len() <= 2,
    decreases tasks.len(),
{
    if tasks.len() > 0 {
        lemma_running_entries(tasks.drop_last(), active, width);
    }
}

proof fn lemma_running_entries_has(tasks: Seq<Task>, active: Option<Seq<char>>, width: nat, k: int) -> (r: int)
    requires
        0 <= k < tasks.len(),
        tasks[k].status == TaskStatus::InProgress,
    ensures
        0 <= r < running_entries(tasks, active, width).len(),
        running_entries(tasks, active, width)[r].len() > 0,
        running_entries(tasks, active, width)[r][0].len() == 3,
        running_entries(tasks, active, width)[r][0][2].0 == shortened(tasks[k].subject@, less(width, 5)),
        running_entries(tasks, active, width)[r][0][1].0 == "■ "@,
    decreases tasks.len(),
{
    let front = tasks.drop_last();
    if k < front.len() {
        lemma_running_entries_has(front, active, width, k)
    } else {
        running_entries(front, active, width).len() as int
    }
}

proof fn lemma_waiting_tasks(tasks: Seq<Task>, some: Seq<Task>)
    ensures
        waiting_tasks(tasks, some).len() + running_count(some) <= some.len(),
    decreases some.len(),
{
    if some.len() > 0 {
        lemma_waiting_tasks(tasks, some.drop_last());
    }
}

/// How many tasks are being done.
pub open spec fn running_count(tasks: Seq<Task>) -> nat
    decreases tasks.len(),
{
    if tasks.len() == 0 {
        0
    } else {
        running_count(tasks.drop_last()) + (if tasks.last().status == TaskStatus::InProgress {
            1nat
        } else {
            0
        })
    }
}

proof fn lemma_running_len(tasks: Seq<Task>, active: Option<Seq<char>>, width: nat)
    ensures
        running_entries(tasks, active, width).len() == running_count(tasks),
    decreases tasks.len(),
{
    if tasks.len() > 0 {
        lemma_running_len(tasks.drop_last(), active, width);
    }
}

proof fn lemma_waiting_has(tasks: Seq<Task>, some: Seq<Task>, k: int)
    requires
        0 <= k < some.len(),
        some[k].status.open(),
        some[k].status != TaskStatus::InProgress,
    ensures
        waiting_tasks(tasks, some).contains((some[k], unmet(tasks, texts(some[k].blocked_by@)))),
    decreases some.len(),
{
    let front = some.drop_last();
    let w = (some[k], unmet(tasks, texts(some[k].blocked_by@)));
    let before = waiting_tasks(tasks, front);
    if k < front.len() {
        lemma_waiting_has(tasks, front, k);
        let i = choose|i: int| 0 <= i < before.len() && before[i] == w;
        assert(waiting_tasks(tasks, some)[i] == w);
    } else {
        assert(waiting_tasks(tasks, some)[before.len() as int] == w);
    }
}

/// Where the list has room for all, every open task is pinned: one that is being done
/// with its subject behind a full box, one that waits with its row.
pub proof fn law_every_open_task_is_pinned(
    tasks: Seq<Task>,
    done_at: Map<Seq<char>, Instant>,
    active: Option<Seq<char>>,
    width: nat,
    height: nat,
    now: Instant,
    k: int,
)
    requires
        0 <= k < tasks.len(),
        tasks[k].status.open(),
        width >= 10,
        height >= 2 * tasks.len() + 2,
        open_count(tasks) > 0,
    ensures
        tasks[k].status == TaskStatus::InProgress ==> shows(
            pinned_rows(tasks, done_at, active, width, height, now),
            shortened(tasks[k].subject@, less(width, 5)),
        ),
        tasks[k].status != TaskStatus::InProgress ==> pinned_rows(tasks, done_at, active, width, height, now).contains(
            waiting_row(tasks[k], unmet(tasks, texts(tasks[k].blocked_by@)), width),
        ),
{
    let done = just_done_count(tasks, done_at, now);
    let open = open_count(tasks);
    let head = head_rows(done, open, height);
    let running = running_entries(tasks, active, width);
    let waiting = waiting_tasks(tasks, tasks);
    let order = sorted(waiting, waiting_order());
    let entries = running + waiting_entries(order, width);
    let room = (height - head.len()) as nat;
    let rows = pinned_rows(tasks, done_at, active, width, height, now);
    lemma_running_entries(tasks, active, width);
    lemma_running_len(tasks, active, width);
    lemma_waiting_tasks(tasks, tasks);
    crate::order::law_sorted_is_a_permutation(waiting, waiting_order());
    assert(entries.len() <= tasks.len());
    assert forall|i: int| 0 <= i < entries.len() implies 0 < (#[trigger] entries[i]).len() <= 2 by {
        if i < running.len() {
            assert(entries[i] == running[i]);
        }
    }
    if tasks[k].status == TaskStatus::InProgress {
        let r = lemma_running_entries_has(tasks, active, width, k);
        lemma_fitted_all(entries, room, r, 0);
        let row = entries[r][0];
        let shown = fitted(entries, room).0;
        let j = choose|j: int| 0 <= j < shown.len() && shown[j] == row;
        assert(rows[head.len() + j] == row);
        let name = shortened(tasks[k].subject@, less(width, 5));
        lemma_has_itself(name);
        lemma_row_has(row, 2, name);
    } else {
        lemma_waiting_has(tasks, tasks, k);
        let w = (tasks[k], unmet(tasks, texts(tasks[k].blocked_by@)));
        vstd::seq_lib::to_multiset_contains(waiting, w);
        vstd::seq_lib::to_multiset_contains(order, w);
        let o = choose|o: int| 0 <= o < order.len() && order[o] == w;
        let e = running.len() + o;
        assert(entries[e] == seq![waiting_row(w.0, w.1, width)]);
        lemma_fitted_all(entries, room, e, 0);
        let shown = fitted(entries, room).0;
        let row = waiting_row(w.0, w.1, width);
        assert(entries[e][0] == row);
        let j = choose|j: int| 0 <= j < shown.len() && shown[j] == row;
        assert(rows[head.len() + j] == row);
    }
}

/// A list that does not fit says how many entries it leaves out.
pub proof fn law_hidden_tasks_are_counted(entries: Seq<Seq<Row>>, room: nat)
    requires
        fitted(entries, room).1 < entries.len(),
        room > 0,
    ensures
        has_text(
            row_text(with_footer(entries, room).last()),
            decimal((entries.len() - fitted(entries, (room - 1) as nat).1) as nat) + " more"@,
        ),
        fitted(entries, (room - 1) as nat).1 <= entries.len(),
{
    lemma_fitted_len(entries, (room - 1) as nat);
    let n = decimal((entries.len() - fitted(entries, (room - 1) as nat).1) as nat);
    reveal_strlit("  … +");
    reveal_strlit(" more");
    reveal_strlit(" more · open /tasks for the full list");
    let text = "  … +"@ + n + " more · open /tasks for the full list"@;
    let w = n + " more"@;
    assert(text.subrange(5, 5int + w.len()) =~= w);
    assert(crate::slicing::occurs_at(text, w, 5));
    lemma_row_has(with_footer(entries, room).last(), 0, w);
}

/// A task counts as just done for half a minute from when it was done, and no other does.
pub proof fn law_done_tasks_linger(tasks: Seq<Task>, t: Task, done_at: Map<Seq<char>, Instant>, now: Instant)
    ensures
        ({
            let n = just_done_count(tasks, done_at, now);
            let more = just_done_count(tasks.push(t), done_at, now);
            &&& t.status == TaskStatus::Completed && done_at.contains_key(t.id@) && now.since(done_at[t.id@])
                < 30_000_000_000 ==> more == n + 1
            &&& t.status != TaskStatus::Completed ==> more == n
            &&& !done_at.contains_key(t.id@) ==> more == n
            &&& done_at.contains_key(t.id@) && now.since(done_at[t.id@]) >= 30_000_000_000 ==> more == n
        }),
{
    assert(tasks.push(t).drop_last() =~= tasks);
    assert(tasks.push(t).last() == t);
}

/// A task that is held up stands back behind those that can start.
pub proof fn law_blocked_tasks_stand_back(t: Task, blockers: Seq<Seq<char>>, width: nat)
    ensures
        blockers.len() > 0 || t.status == TaskStatus::Blocked ==> waiting_row(t, blockers, width)[2].1
            == Style::in_tone(Tone::TextMuted),
        blockers.len() == 0 && t.status != TaskStatus::Blocked ==> waiting_row(t, blockers, width)[2].1
            == Style::in_tone(Tone::TextSecondary),
{
}

} // verus!
