//! The list of background shells.
use vstd::prelude::*;

use crate::layout::Rect;
use crate::pinned::Row;
use crate::slicing::{has_text, occurs_at};
use crate::styled::{group_rows, line1, row1, span, spans_of, Line, Span, Style, Tone};
use crate::text::{cat5, chars_of, count_text, decimal, decimal_text, text_between};

verus! {

broadcast use group_rows;

/// A shell in the background.
#[derive(Debug)]
pub struct BashTaskSnapshot {
    pub id: String,
    pub command: String,
    pub status: String,
    pub total_lines: u64,
    pub running: bool,
}

/// How many shells are running.
pub open spec fn running_count(tasks: Seq<BashTaskSnapshot>) -> nat
    decreases tasks.len(),
{
    if tasks.len() == 0 {
        0
    } else {
        running_count(tasks.drop_last()) + if tasks.last().running {
            1nat
        } else {
            0nat
        }
    }
}

/// The title of the list.
pub open spec fn picker_title(tasks: Seq<BashTaskSnapshot>) -> Seq<char> {
    " Background shells · "@ + decimal(running_count(tasks)) + " running / "@ + decimal(tasks.len())
        + " total "@
}

fn title(tasks: &Vec<BashTaskSnapshot>) -> (r: String)
    ensures
        r@ == picker_title(tasks@),
{
    let mut n: usize = 0;
    let mut i: usize = 0;
    assert(tasks@.take(0) =~= Seq::<BashTaskSnapshot>::empty());
    while i < tasks.len()
        invariant
            i <= tasks@.len(),
            n <= i,
            n == running_count(tasks@.take(i as int)),
        decreases tasks@.len() - i,
    {
        assert(tasks@.take(i + 1).drop_last() =~= tasks@.take(i as int));
        if tasks[i].running {
            n += 1;
        }
        i += 1;
    }
    assert(tasks@.take(i as int) =~= tasks@);
    cat5(
        " Background shells · ",
        count_text(n).as_str(),
        " running / ",
        count_text(tasks.len()).as_str(),
        " total ",
    )
}

/// Characters of a command that are shown.
pub const COMMAND_PREVIEW: usize = 60;

/// The cells of a shell: marker, status, id, lines and the start of the
/// command.
pub open spec fn shell_cells(s: BashTaskSnapshot) -> Row {
    let style = if s.running {
        Style::plain_style().made_bold()
    } else {
        Style::plain_style().made_dim()
    };
    let marker = if s.running {
        "▶"@
    } else {
        "■"@
    };
    let command = if s.command@.len() > COMMAND_PREVIEW {
        s.command@.take(COMMAND_PREVIEW as int)
    } else {
        s.command@
    };
    seq![
        (marker, style),
        (s.status@, style),
        (s.id@, Style::plain_style()),
        (decimal(s.total_lines as nat), Style::plain_style()),
        (command, Style::plain_style()),
    ]
}

/// The cells of a shell.
pub fn shell_row(s: &BashTaskSnapshot) -> (r: Vec<Span>)
    ensures
        spans_of(r@) == shell_cells(*s),
{
    let style = if s.running {
        Style::plain().bold()
    } else {
        Style::plain().dim()
    };
    let marker = if s.running {
        "▶"
    } else {
        "■"
    };
    let cs = chars_of(s.command.as_str());
    let end: usize = if cs.len() > COMMAND_PREVIEW {
        COMMAND_PREVIEW
    } else {
        cs.len()
    };
    let command = text_between(&cs, 0, end);
    assert(cs@.subrange(0, end as int) =~= cs@.take(end as int));
    assert(cs@.take(cs@.len() as int) =~= cs@);
    let mut out: Vec<Span> = Vec::new();
    out.push(span(marker.to_owned(), style));
    out.push(span(s.status.clone(), style));
    out.push(span(s.id.clone(), Style::plain()));
    out.push(span(decimal_text(s.total_lines), Style::plain()));
    out.push(span(command, Style::plain()));
    assert(spans_of(out@) =~= shell_cells(*s));
    out
}

/// What the cells of the table show.
pub open spec fn cells_of(v: Seq<Vec<Span>>) -> Seq<Row> {
    v.map_values(|c: Vec<Span>| spans_of(c@))
}

/// The cells of all shells.
pub open spec fn table_cells(tasks: Seq<BashTaskSnapshot>) -> Seq<Row> {
    tasks.map_values(|s: BashTaskSnapshot| shell_cells(s))
}

/// The cells of all shells, one row for each.
pub fn shells_table(tasks: &Vec<BashTaskSnapshot>) -> (r: Vec<Vec<Span>>)
    ensures
        cells_of(r@) == table_cells(tasks@),
{
    let ghost all = table_cells(tasks@);
    let mut out: Vec<Vec<Span>> = Vec::new();
    let mut i: usize = 0;
    assert(cells_of(out@) =~= all.take(0));
    while i < tasks.len()
        invariant
            i <= tasks@.len(),
            all == table_cells(tasks@),
            cells_of(out@) == all.take(i as int),
        decreases tasks@.len() - i,
    {
        let cells = shell_row(&tasks[i]);
        let ghost before = out@;
        out.push(cells);
        assert(cells_of(out@) =~= cells_of(before).push(spans_of(cells@)));
        assert(all.take(i + 1) =~= all.take(i as int).push(all[i as int]));
        i += 1;
    }
    assert(all.take(i as int) =~= all);
    out
}

/// The list of shells, ready to be drawn.
#[derive(Debug)]
pub struct BashPicker {
    pub area: Rect,
    pub title: String,
    /// What is said where there is no shell.
    pub empty_note: Option<Line>,
    pub cells: Vec<Vec<Span>>,
}

/// What is said where there is no shell.
pub open spec fn no_shells_row() -> Row {
    row1(
        "  No background shells. Run a command with run_in_background, or Ctrl+B to detach a running one."@,
        Style::in_tone(Tone::TextMuted).made_italic(),
    )
}

/// The list of shells on a screen of that size.
pub fn bash_picker(tasks: &Vec<BashTaskSnapshot>, screen: Rect) -> (r: BashPicker)
    requires
        screen.width * 9 <= u16::MAX,
        screen.height * 8 <= u16::MAX,
    ensures
        r.area == crate::layout::centred(
            screen,
            crate::layout::clamped(screen.width * 9 / 10, 60, 130),
            crate::layout::clamped(screen.height * 8 / 10, 10, 26),
        ),
        r.title@ == picker_title(tasks@),
        r.empty_note is Some <==> tasks@.len() == 0,
        r.empty_note is Some ==> r.empty_note->0@ == no_shells_row(),
        cells_of(r.cells@) == table_cells(tasks@),
{
    let empty_note = if tasks.len() == 0 {
        Some(
            line1(
                "  No background shells. Run a command with run_in_background, or Ctrl+B to detach a running one.".to_owned(),
                Style::fg(Tone::TextMuted).italic(),
            ),
        )
    } else {
        None
    };
    BashPicker {
        area: crate::layout::bash_picker_area(screen),
        title: title(tasks),
        empty_note,
        cells: shells_table(tasks),
    }
}

/// The title counts the shells that run and all there are.
pub proof fn law_title_counts_shells(tasks: Seq<BashTaskSnapshot>, s: BashTaskSnapshot)
    ensures
        running_count(tasks.push(s)) == running_count(tasks) + (if s.running {
            1nat
        } else {
            0nat
        }),
        running_count(tasks) <= tasks.len(),
        has_text(picker_title(tasks), decimal(running_count(tasks)) + " running"@),
        has_text(picker_title(tasks), decimal(tasks.len()) + " total"@),
    decreases tasks.len(),
{
    assert(tasks.push(s).drop_last() =~= tasks);
    if tasks.len() > 0 {
        law_title_counts_shells(tasks.drop_last(), s);
    }
    reveal_strlit(" running / ");
    reveal_strlit(" running");
    reveal_strlit(" total ");
    reveal_strlit(" total");
    let front = " Background shells · "@;
    let r = decimal(running_count(tasks));
    let n = decimal(tasks.len());
    let all = picker_title(tasks);
    let w = r + " running"@;
    let at: int = front.len() as int;
    assert(all.subrange(at, at + w.len()) =~= w);
    assert(occurs_at(all, w, at));
    let v = n + " total"@;
    let next: int = at + r.len() + 11;
    assert(all.subrange(next, next + v.len()) =~= v);
    assert(occurs_at(all, v, next));
}

/// Every shell has its row: its id, its state, its lines and the beginning of its
/// command, and a pointer while it runs.
pub proof fn law_every_shell_has_its_row(tasks: Seq<BashTaskSnapshot>, k: int)
    requires
        0 <= k < tasks.len(),
    ensures
        table_cells(tasks).len() == tasks.len(),
        ({
            let row = table_cells(tasks)[k];
            let s = tasks[k];
            &&& row.len() == 5
            &&& row[0].0 == (if s.running {
                "▶"@
            } else {
                "■"@
            })
            &&& row[1].0 == s.status@
            &&& row[2].0 == s.id@
            &&& crate::showing::value_of(row[3].0) == s.total_lines
            &&& row[4].0 == s.command@.take(row[4].0.len() as int)
            &&& s.command@.len() <= 60 ==> row[4].0 == s.command@
            &&& row[4].0.len() <= 60
        }),
{
    let s = tasks[k];
    crate::showing::law_decimal_reads_back(s.total_lines as nat);
    assert(s.command@.take(s.command@.len() as int) =~= s.command@);
}

/// The row of a shell tells its state, its name, how many lines it wrote and how its
/// command begins, and shells that run stand out from those that ended.
pub proof fn law_shells_are_told_apart(s: BashTaskSnapshot, other: BashTaskSnapshot)
    ensures
        ({
            let cells = shell_cells(s);
            &&& cells.len() == 5
            &&& cells[1].0 == s.status@ && cells[2].0 == s.id@ && cells[3].0 == decimal(s.total_lines as nat)
            &&& cells[4].0.len() <= s.command@.len() && cells[4].0 == s.command@.take(cells[4].0.len() as int)
            &&& s.command@.len() <= COMMAND_PREVIEW ==> cells[4].0 == s.command@
            &&& s.running ==> cells[0].1.bold && cells[1].1.bold
            &&& !s.running ==> cells[0].1.dim && cells[1].1.dim
        }),
        s.running != other.running ==> shell_cells(s)[0].0 != shell_cells(other)[0].0,
{
    reveal_strlit("▶");
    reveal_strlit("■");
    assert("▶"@[0] != "■"@[0]);
    assert(s.command@.take(s.command@.len() as int) =~= s.command@);
}

} // verus!
