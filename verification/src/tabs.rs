//! The strip of tabs above an agent's transcript.
//!
//! Each tab has the agent's state and the part of its description that differs
//! from the others. The strip is a window around the selected tab.
use vstd::prelude::*;

use crate::agents::{fleet_ids, fleet_ordered_task_ids, row_columns, spans_width};
use crate::background::{agent_at, find_agent, BackgroundTask, Fleet};
use crate::fitting::{cell_width, cut_to_cells, text_columns, truncate_cells};
use crate::pinned::Row;
use crate::slicing::{after_prefix, group_texts, opt_text, repeat, repeated, strip_prefix, texts, trim_start, trimmed_start};
use crate::spinner::{frame_for, frame_glyph};
use crate::styled::{group_rows, line1, row1, span, spans_of, Line, Span, Style, Tone};
use crate::text::{cat2, cat4, char_count, chars_of, count_text, decimal, same_text, text_between};
use crate::time::Instant;
use crate::transcript::TaskLifecycle;

verus! {

broadcast use {group_texts, group_rows};

// ── the common prefix ───────────────────────────────────────────────────

/// All items begin with the first `n` characters of the first one.
pub open spec fn all_begin_alike(items: Seq<Seq<char>>, n: int) -> bool {
    forall|i: int|
        0 <= i < items.len() ==> (#[trigger] items[i]).len() >= n && items[i].take(n) == items[0].take(n)
}

/// The longest beginning, of at most `n` characters, that ends behind a space
/// and that all items share.
pub open spec fn shared_words(items: Seq<Seq<char>>, n: nat) -> nat
    decreases n,
{
    if n == 0 {
        0
    } else if items[0][n - 1] == ' ' && all_begin_alike(items, n as int) {
        n
    } else {
        shared_words(items, (n - 1) as nat)
    }
}

/// The words that all items begin with; nothing where there are fewer than two.
pub open spec fn common_words(items: Seq<Seq<char>>) -> Seq<char> {
    if items.len() < 2 {
        Seq::empty()
    } else {
        items[0].take(shared_words(items, items[0].len()) as int)
    }
}

fn begin_alike(a: &Vec<char>, b: &Vec<char>, n: usize) -> (r: bool)
    requires
        n <= a@.len(),
    ensures
        r == (b@.len() >= n && b@.take(n as int) == a@.take(n as int)),
{
    if b.len() < n {
        return false;
    }
    let mut i: usize = 0;
    while i < n
        invariant
            i <= n <= a@.len(),
            n <= b@.len(),
            forall|j: int| 0 <= j < i ==> a@[j] == b@[j],
        decreases n - i,
    {
        if a[i] != b[i] {
            assert(a@.take(n as int)[i as int] != b@.take(n as int)[i as int]);
            return false;
        }
        i += 1;
    }
    assert(b@.take(n as int) =~= a@.take(n as int));
    true
}

/// The words that all items begin with, with the space behind the last one.
pub fn common_word_prefix(items: &Vec<String>) -> (r: String)
    ensures
        r@ == common_words(texts(items@)),
{
    let ghost all = texts(items@);
    if items.len() < 2 {
        return String::new();
    }
    let first = chars_of(items[0].as_str());
    assert(all[0] == first@);
    let mut n: usize = first.len();
    while n > 0
        invariant
            items@.len() >= 2,
            all == texts(items@),
            all[0] == first@,
            n <= first@.len(),
            shared_words(all, first@.len()) == shared_words(all, n as nat),
        decreases n,
    {
        let mut alike = first[n - 1] == ' ';
        let mut k: usize = 0;
        while k < items.len() && alike
            invariant
                0 < n <= first@.len(),
                all == texts(items@),
                all[0] == first@,
                k <= items@.len(),
                alike ==> first@[n - 1] == ' ',
                alike ==> forall|i: int|
                    0 <= i < k ==> (#[trigger] all[i]).len() >= n && all[i].take(n as int) == all[0].take(
                        n as int,
                    ),
                !alike ==> !(first@[n - 1] == ' ' && all_begin_alike(all, n as int)),
            decreases items@.len() - k,
        {
            let other = chars_of(items[k].as_str());
            assert(all[k as int] == other@);
            if !begin_alike(&first, &other, n) {
                alike = false;
            }
            k += 1;
        }
        if alike {
            assert(all_begin_alike(all, n as int));
            let head = text_between(&first, 0, n);
            assert(head@ =~= all[0].take(n as int));
            return head;
        }
        n -= 1;
    }
    assert(all[0].take(0) =~= Seq::<char>::empty());
    String::new()
}

/// The common words are a beginning of every item.
pub proof fn law_common_words_begin_every_item(items: Seq<Seq<char>>, i: int)
    requires
        0 <= i < items.len(),
    ensures
        after_prefix(items[i], common_words(items)) is Some,
{
    if items.len() >= 2 {
        lemma_shared_words(items, items[0].len());
        let n = shared_words(items, items[0].len()) as int;
        assert(items[i].take(n) == items[0].take(n));
        assert(common_words(items) =~= items[i].take(n));
        assert(items[i].subrange(0, n) =~= items[i].take(n));
    } else {
        assert(items[i].take(0) =~= Seq::<char>::empty());
        assert(items[i].subrange(0, 0) =~= Seq::<char>::empty());
    }
}

proof fn lemma_shared_words(items: Seq<Seq<char>>, n: nat)
    requires
        items.len() > 0,
        n <= items[0].len(),
    ensures
        shared_words(items, n) <= n,
        all_begin_alike(items, shared_words(items, n) as int),
    decreases n,
{
    if n > 0 && !(items[0][n - 1] == ' ' && all_begin_alike(items, n as int)) {
        lemma_shared_words(items, (n - 1) as nat);
    } else if n == 0 {
        assert forall|i: int| 0 <= i < items.len() implies (#[trigger] items[i]).len() >= 0 && items[i].take(0)
            == items[0].take(0) by {
            assert(items[i].take(0) =~= items[0].take(0));
        }
    }
}

// ── tabs ────────────────────────────────────────────────────────────────

/// One tab.
#[derive(Debug)]
pub struct Tab {
    pub glyph: &'static str,
    pub tone: Tone,
    pub title: String,
}

/// What a tab shows: state, colour and title.
pub open spec fn tab_model(t: Tab) -> (Seq<char>, Tone, Seq<char>) {
    (t.glyph@, t.tone, t.title@)
}

/// What tabs show.
pub open spec fn tab_models(v: Seq<Tab>) -> Seq<(Seq<char>, Tone, Seq<char>)> {
    v.map_values(|t: Tab| tab_model(t))
}

/// The description of the agent with that id, or the id itself.
pub open spec fn described(tasks: Seq<BackgroundTask>, id: Seq<char>) -> Seq<char> {
    match agent_at(tasks, id, 0) {
        Some(i) => tasks[i].description@,
        None => id,
    }
}

fn description_of(tasks: &Vec<BackgroundTask>, id: &String) -> (r: String)
    ensures
        r@ == described(tasks@, id@),
{
    match find_agent(tasks, id.as_str()) {
        Some(bt) => bt.description.clone(),
        None => id.clone(),
    }
}

/// The descriptions of agents.
pub open spec fn descriptions(tasks: Seq<BackgroundTask>, ids: Seq<Seq<char>>) -> Seq<Seq<char>> {
    ids.map_values(|id: Seq<char>| described(tasks, id))
}

fn describe_all(tasks: &Vec<BackgroundTask>, ids: &Vec<String>) -> (r: Vec<String>)
    ensures
        texts(r@) == descriptions(tasks@, texts(ids@)),
{
    let ghost all = descriptions(tasks@, texts(ids@));
    let mut out: Vec<String> = Vec::new();
    let mut i: usize = 0;
    assert(texts(out@) =~= all.take(0));
    while i < ids.len()
        invariant
            i <= ids@.len(),
            all == descriptions(tasks@, texts(ids@)),
            texts(out@) == all.take(i as int),
        decreases ids@.len() - i,
    {
        assert(texts(ids@)[i as int] == ids@[i as int]@);
        out.push(description_of(tasks, &ids[i]));
        assert(all.take(i + 1) =~= all.take(i as int).push(all[i as int]));
        i += 1;
    }
    assert(all.take(i as int) =~= all);
    out
}

/// The state of the agent with that id, as a sign and a colour.
pub open spec fn tab_sign(tasks: Seq<BackgroundTask>, id: Seq<char>, frame: nat) -> (Seq<char>, Tone) {
    match agent_at(tasks, id, 0) {
        Some(i) => match tasks[i].status {
            TaskLifecycle::Running => (frame_glyph(frame), Tone::Warning),
            TaskLifecycle::Completed => ("✓"@, Tone::Success),
            TaskLifecycle::Failed => ("✗"@, Tone::Error),
            _ => ("○"@, Tone::TextMuted),
        },
        None => ("○"@, Tone::TextMuted),
    }
}

/// The description without the words that all share; all of it where nothing
/// would be left.
pub open spec fn own_words(desc: Seq<char>, common: Seq<char>) -> Seq<char> {
    let rest = trimmed_start(
        match after_prefix(desc, common) {
            Some(r) => r,
            None => desc,
        },
    );
    if rest.len() == 0 {
        desc
    } else {
        rest
    }
}

/// The tab of the agent with that id.
pub open spec fn tab_for(tasks: Seq<BackgroundTask>, id: Seq<char>, common: Seq<char>, frame: nat) -> (
    Seq<char>,
    Tone,
    Seq<char>,
) {
    let sign = tab_sign(tasks, id, frame);
    (sign.0, sign.1, cut_to_cells(own_words(described(tasks, id), common), 22))
}

fn make_tab(tasks: &Vec<BackgroundTask>, id: &String, common: &str, frame: usize) -> (r: Tab)
    ensures
        tab_model(r) == tab_for(tasks@, id@, common@, frame as nat),
{
    let desc = description_of(tasks, id);
    let rest = match strip_prefix(desc.as_str(), common) {
        Some(rest) => trim_start(rest.as_str()),
        None => trim_start(desc.as_str()),
    };
    let shown = if char_count(rest.as_str()) == 0 {
        desc
    } else {
        rest
    };
    let (glyph, tone) = match find_agent(tasks, id.as_str()) {
        Some(bt) => match bt.status {
            TaskLifecycle::Running => (frame_for(frame), Tone::Warning),
            TaskLifecycle::Completed => ("✓", Tone::Success),
            TaskLifecycle::Failed => ("✗", Tone::Error),
            _ => ("○", Tone::TextMuted),
        },
        None => ("○", Tone::TextMuted),
    };
    Tab { glyph, tone, title: truncate_cells(shown.as_str(), 22) }
}

/// The tabs of the agents.
pub open spec fn tabs_of(tasks: Seq<BackgroundTask>, ids: Seq<Seq<char>>, frame: nat) -> Seq<
    (Seq<char>, Tone, Seq<char>),
> {
    let common = common_words(descriptions(tasks, ids));
    ids.map_values(|id: Seq<char>| tab_for(tasks, id, common, frame))
}

fn make_tabs(tasks: &Vec<BackgroundTask>, ids: &Vec<String>, frame: usize) -> (r: Vec<Tab>)
    ensures
        tab_models(r@) == tabs_of(tasks@, texts(ids@), frame as nat),
{
    let common = common_word_prefix(&describe_all(tasks, ids));
    let ghost all = tabs_of(tasks@, texts(ids@), frame as nat);
    let mut out: Vec<Tab> = Vec::new();
    let mut i: usize = 0;
    assert(tab_models(out@) =~= all.take(0));
    while i < ids.len()
        invariant
            i <= ids@.len(),
            common@ == common_words(descriptions(tasks@, texts(ids@))),
            all == tabs_of(tasks@, texts(ids@), frame as nat),
            tab_models(out@) == all.take(i as int),
        decreases ids@.len() - i,
    {
        assert(texts(ids@)[i as int] == ids@[i as int]@);
        let tab = make_tab(tasks, &ids[i], common.as_str(), frame);
        let ghost before = out@;
        out.push(tab);
        assert(tab_models(out@) =~= tab_models(before).push(tab_model(tab)));
        assert(all.take(i + 1) =~= all.take(i as int).push(all[i as int]));
        i += 1;
    }
    assert(all.take(i as int) =~= all);
    out
}

// ── the window ──────────────────────────────────────────────────────────

/// Columns of a tab.
pub open spec fn tab_columns(t: (Seq<char>, Tone, Seq<char>)) -> nat {
    text_columns(t.0) as nat + 1 + text_columns(t.2) as nat
}

/// Columns that are kept free for the arrows.
pub open spec fn reserved(lo: int, hi: int, n: int) -> nat {
    (if lo > 0 {
        2nat
    } else {
        0
    }) + (if hi + 1 < n {
        2nat
    } else {
        0
    })
}

/// The window `lo..=hi` of `total` columns, made larger on both sides as long
/// as it fits, the right side first.
pub open spec fn window(tabs: Seq<(Seq<char>, Tone, Seq<char>)>, lo: int, hi: int, total: nat, room: nat) -> (int, int)
    decreases lo + tabs.len() - hi,
{
    if lo < 0 || hi >= tabs.len() {
        (lo, hi)
    } else {
        let keep = reserved(lo, hi, tabs.len() as int);
        let right = hi + 1 < tabs.len() && total + 3 + tab_columns(tabs[hi + 1]) + keep <= room;
        let total1 = if right {
            total + 3 + tab_columns(tabs[hi + 1])
        } else {
            total
        };
        let left = lo > 0 && total1 + 3 + tab_columns(tabs[lo - 1]) + keep <= room;
        let total2 = if left {
            total1 + 3 + tab_columns(tabs[lo - 1])
        } else {
            total1
        };
        if !right && !left {
            (lo, hi)
        } else {
            window(
                tabs,
                if left {
                    lo - 1
                } else {
                    lo
                },
                if right {
                    hi + 1
                } else {
                    hi
                },
                total2,
                room,
            )
        }
    }
}

fn columns_of(t: &Tab) -> (r: u128)
    ensures
        r == tab_columns(tab_model(*t)),
        r <= 0x2_0000_0000_0000_0000,
{
    cell_width(t.glyph) as u128 + 1 + cell_width(t.title.as_str()) as u128
}

fn grow_window(tabs: &Vec<Tab>, selected: usize, room: usize) -> (r: (usize, usize))
    requires
        selected < tabs@.len(),
    ensures
        (r.0 as int, r.1 as int) == window(
            tab_models(tabs@),
            selected as int,
            selected as int,
            tab_columns(tab_models(tabs@)[selected as int]),
            room as nat,
        ),
        r.0 <= selected <= r.1 < tabs@.len(),
{
    let ghost all = tab_models(tabs@);
    let n: usize = tabs.len();
    let mut lo: usize = selected;
    let mut hi: usize = selected;
    let mut total: u128 = columns_of(&tabs[selected]);
    let ghost result = window(
        all,
        selected as int,
        selected as int,
        tab_columns(all[selected as int]),
        room as nat,
    );
    let mut grew = true;
    while grew
        invariant
            all == tab_models(tabs@),
            n == tabs@.len() == all.len(),
            lo <= selected <= hi < n,
            grew ==> result == window(all, lo as int, hi as int, total as nat, room as nat),
            !grew ==> result == (lo as int, hi as int),
            total <= 0x2_0000_0000_0000_0000,
        decreases lo + n - hi + if grew {
            1int
        } else {
            0
        },
    {
        let keep: u128 = (if lo > 0 {
            2u128
        } else {
            0u128
        }) + (if hi + 1 < n {
            2u128
        } else {
            0u128
        });
        grew = false;
        let limit: u128 = room as u128;
        if hi + 1 < n {
            let w: u128 = columns_of(&tabs[hi + 1]);
            assert(tab_model(tabs@[hi + 1]) == all[hi + 1]);
            if total + 3 + w + keep <= limit {
                hi += 1;
                total = total + 3 + w;
                grew = true;
            }
        }
        if lo > 0 {
            let w: u128 = columns_of(&tabs[lo - 1]);
            assert(tab_model(tabs@[lo - 1]) == all[lo - 1]);
            if total + 3 + w + keep <= limit {
                lo -= 1;
                total = total + 3 + w;
                grew = true;
            }
        }
    }
    (lo, hi)
}

/// Columns of the tabs `lo..=hi` with the dividers between them.
pub open spec fn strip_columns(tabs: Seq<(Seq<char>, Tone, Seq<char>)>, lo: int, hi: int) -> nat
    decreases hi - lo,
{
    if lo >= hi {
        tab_columns(tabs[lo])
    } else {
        strip_columns(tabs, lo, hi - 1) + 3 + tab_columns(tabs[hi])
    }
}

proof fn lemma_strip_left(tabs: Seq<(Seq<char>, Tone, Seq<char>)>, lo: int, hi: int)
    requires
        lo <= hi,
    ensures
        strip_columns(tabs, lo - 1, hi) == tab_columns(tabs[lo - 1]) + 3 + strip_columns(tabs, lo, hi),
    decreases hi - lo,
{
    if lo < hi {
        lemma_strip_left(tabs, lo, hi - 1);
        assert(strip_columns(tabs, lo - 1, hi) == strip_columns(tabs, lo - 1, hi - 1) + 3 + tab_columns(
            tabs[hi],
        ));
    } else {
        assert(strip_columns(tabs, lo - 1, lo) == strip_columns(tabs, lo - 1, lo - 1) + 3 + tab_columns(
            tabs[lo],
        ));
    }
}

/// The window holds the selected tab; and where it holds more than that one, it
/// fits into the room together with its arrows.
pub proof fn law_window_fits(tabs: Seq<(Seq<char>, Tone, Seq<char>)>, selected: int, room: nat)
    requires
        0 <= selected < tabs.len(),
    ensures
        ({
            let (lo, hi) = window(tabs, selected, selected, tab_columns(tabs[selected]), room);
            &&& 0 <= lo <= selected <= hi < tabs.len()
            &&& lo < hi ==> strip_columns(tabs, lo, hi) + reserved(lo, hi, tabs.len() as int) <= room
        }),
{
    lemma_window(tabs, selected, selected, selected, room);
}

proof fn lemma_window(tabs: Seq<(Seq<char>, Tone, Seq<char>)>, selected: int, lo: int, hi: int, room: nat)
    requires
        0 <= lo <= selected <= hi < tabs.len(),
        lo < hi ==> strip_columns(tabs, lo, hi) + reserved(lo, hi, tabs.len() as int) <= room,
    ensures
        ({
            let (l, h) = window(tabs, lo, hi, strip_columns(tabs, lo, hi), room);
            &&& 0 <= l <= selected <= h < tabs.len()
            &&& l < h ==> strip_columns(tabs, l, h) + reserved(l, h, tabs.len() as int) <= room
        }),
    decreases lo + tabs.len() - hi,
{
    let total = strip_columns(tabs, lo, hi);
    let keep = reserved(lo, hi, tabs.len() as int);
    let right = hi + 1 < tabs.len() && total + 3 + tab_columns(tabs[hi + 1]) + keep <= room;
    let hi1 = if right {
        hi + 1
    } else {
        hi
    };
    let total1 = strip_columns(tabs, lo, hi1);
    assert(total1 == if right {
        total + 3 + tab_columns(tabs[hi + 1])
    } else {
        total
    });
    let left = lo > 0 && total1 + 3 + tab_columns(tabs[lo - 1]) + keep <= room;
    if left {
        lemma_strip_left(tabs, lo, hi1);
    }
    if right || left {
        let lo1 = if left {
            lo - 1
        } else {
            lo
        };
        lemma_window(tabs, selected, lo1, hi1, room);
    }
}

// ── the strip ───────────────────────────────────────────────────────────

/// The spans of one tab.
pub open spec fn tab_spans(t: (Seq<char>, Tone, Seq<char>), selected: bool) -> Row {
    let title = if selected {
        Style::in_tone(Tone::TextPrimary).made_bold()
    } else {
        Style::in_tone(Tone::TextMuted)
    };
    seq![(t.0 + " "@, Style::in_tone(t.1)), (t.2, title)]
}

/// The tabs from `lo` up to `end`, with dividers between them.
pub open spec fn strip_spans(tabs: Seq<(Seq<char>, Tone, Seq<char>)>, lo: int, end: int, selected: int) -> Row
    decreases end - lo,
{
    if end <= lo {
        Seq::empty()
    } else if end == lo + 1 {
        tab_spans(tabs[lo], lo == selected)
    } else {
        strip_spans(tabs, lo, end - 1, selected) + seq![(" · "@, Style::in_tone(Tone::Border))] + tab_spans(
            tabs[end - 1],
            end - 1 == selected,
        )
    }
}

/// The window with its arrows.
pub open spec fn arrowed(tabs: Seq<(Seq<char>, Tone, Seq<char>)>, lo: int, hi: int, selected: int) -> Row {
    let left = if lo > 0 {
        seq![("‹ "@, Style::in_tone(Tone::TextMuted))]
    } else {
        Seq::empty()
    };
    let right = if hi + 1 < tabs.len() {
        seq![(" ›"@, Style::in_tone(Tone::TextMuted))]
    } else {
        Seq::empty()
    };
    left + strip_spans(tabs, lo, hi + 1, selected) + right
}

fn strip(tabs: &Vec<Tab>, lo: usize, hi: usize, selected: usize) -> (r: Vec<Span>)
    requires
        lo <= hi < tabs@.len(),
    ensures
        spans_of(r@) == arrowed(tab_models(tabs@), lo as int, hi as int, selected as int),
{
    let ghost all = tab_models(tabs@);
    let mut out: Vec<Span> = Vec::new();
    if lo > 0 {
        out.push(span("‹ ".to_owned(), Style::fg(Tone::TextMuted)));
    }
    let ghost left = spans_of(out@);
    let n: usize = tabs.len();
    let mut i: usize = lo;
    assert(spans_of(out@) =~= left + strip_spans(all, lo as int, i as int, selected as int));
    while i <= hi
        invariant
            all == tab_models(tabs@),
            lo <= i <= hi + 1,
            hi < n == tabs@.len(),
            spans_of(out@) == left + strip_spans(all, lo as int, i as int, selected as int),
        decreases hi + 1 - i,
    {
        let tab = &tabs[i];
        assert(all[i as int] == tab_model(*tab));
        let ghost before = strip_spans(all, lo as int, i as int, selected as int);
        if i > lo {
            out.push(span(" · ".to_owned(), Style::fg(Tone::Border)));
        }
        let style = if i == selected {
            Style::fg(Tone::TextPrimary).bold()
        } else {
            Style::fg(Tone::TextMuted)
        };
        out.push(span(cat2(tab.glyph, " "), Style::fg(tab.tone)));
        out.push(span(tab.title.clone(), style));
        assert(spans_of(out@) =~= left + strip_spans(all, lo as int, i + 1, selected as int));
        i += 1;
    }
    let ghost so_far = spans_of(out@);
    if hi + 1 < tabs.len() {
        out.push(span(" ›".to_owned(), Style::fg(Tone::TextMuted)));
    }
    assert(left =~= if lo > 0 {
        seq![("‹ "@, Style::in_tone(Tone::TextMuted))]
    } else {
        Seq::empty()
    });
    assert(spans_of(out@) =~= arrowed(all, lo as int, hi as int, selected as int));
    out
}

/// The strip with the keys at its right end, where there are three columns
/// between them.
pub open spec fn with_keys(row: Row, selected: nat, n: nat, width: nat) -> Row {
    let hint = "↑ back · ←/→ · "@ + decimal(selected + 1) + "/"@ + decimal(n);
    if row_columns(row) + text_columns(hint) + 3 <= width {
        row + seq![
            (
                repeated(" "@, (width - row_columns(row) - text_columns(hint)) as nat),
                Style::plain_style(),
            ),
            (hint, Style::in_tone(Tone::TextMuted)),
        ]
    } else {
        row
    }
}

fn add_keys(spans: Vec<Span>, selected: usize, n: usize, width: usize) -> (r: Vec<Span>)
    requires
        selected < n,
    ensures
        spans_of(r@) == with_keys(spans_of(spans@), selected as nat, n as nat, width as nat),
{
    let hint = cat4(
        "↑ back · ←/→ · ",
        count_text(selected + 1).as_str(),
        "/",
        count_text(n).as_str(),
    );
    let used: usize = spans_width(&spans, width);
    let cells: usize = cell_width(hint.as_str());
    let mut out = spans;
    if used as u128 + cells as u128 + 3 <= width as u128 {
        let ghost before = spans_of(out@);
        let ghost h = hint@;
        out.push(span(repeat(" ", width - used - cells), Style::plain()));
        out.push(span(hint, Style::fg(Tone::TextMuted)));
        assert(spans_of(out@) =~= with_keys(before, selected as nat, n as nat, width as nat));
    }
    out
}

/// The position of the selected tab: that of the agent being viewed, else the
/// first.
pub open spec fn selected_tab(ids: Seq<Seq<char>>, viewing: Option<Seq<char>>, from: int) -> int
    decreases ids.len() - from,
{
    if from < 0 || from >= ids.len() {
        0
    } else if viewing == Some(ids[from]) {
        from
    } else {
        selected_tab(ids, viewing, from + 1)
    }
}

fn position_of_view(ids: &Vec<String>, viewing: &Option<String>) -> (r: usize)
    requires
        ids@.len() > 0,
    ensures
        r == selected_tab(texts(ids@), opt_text(*viewing), 0),
        r < ids@.len(),
{
    let ghost all = texts(ids@);
    let mut i: usize = 0;
    while i < ids.len()
        invariant
            ids@.len() > 0,
            i <= ids@.len(),
            all == texts(ids@),
            selected_tab(all, opt_text(*viewing), 0) == selected_tab(all, opt_text(*viewing), i as int),
        decreases ids@.len() - i,
    {
        assert(all[i as int] == ids@[i as int]@);
        let here = match viewing {
            Some(v) => same_text(v.as_str(), ids[i].as_str()),
            None => false,
        };
        if here {
            return i;
        }
        i += 1;
    }
    0
}

/// The strip of tabs.
pub open spec fn footer_row(
    tasks: Seq<BackgroundTask>,
    last_active: Option<Seq<char>>,
    viewing: Option<Seq<char>>,
    frame: nat,
    width: nat,
    now: Instant,
) -> Row {
    let ids = fleet_ids(tasks, last_active, now);
    if ids.len() == 0 {
        row1("↑ back · no agents"@, Style::in_tone(Tone::TextMuted))
    } else {
        let tabs = tabs_of(tasks, ids, frame);
        let selected = selected_tab(ids, viewing, 0);
        let (lo, hi) = window(tabs, selected, selected, tab_columns(tabs[selected]), width);
        with_keys(arrowed(tabs, lo, hi, selected), selected as nat, ids.len(), width)
    }
}

/// The strip of tabs above an agent's transcript.
pub fn subagent_footer(fleet: &Fleet, frame: usize, width: u16, now: Instant) -> (r: Line)
    ensures
        r@ == footer_row(
            fleet.tasks@,
            opt_text(fleet.last_active),
            opt_text(fleet.viewing),
            frame as nat,
            width as nat,
            now,
        ),
{
    let ids = fleet_ordered_task_ids(fleet, now);
    assert(texts(ids@).len() == ids@.len());
    if ids.len() == 0 {
        return line1("↑ back · no agents".to_owned(), Style::fg(Tone::TextMuted));
    }
    let selected: usize = position_of_view(&ids, &fleet.viewing);
    let tabs = make_tabs(&fleet.tasks, &ids, frame);
    assert(tab_models(tabs@).len() == tabs@.len());
    let (lo, hi) = grow_window(&tabs, selected, width as usize);
    let spans = strip(&tabs, lo, hi, selected);
    Line { spans: add_keys(spans, selected, ids.len(), width as usize) }
}

proof fn lemma_selected_tab(ids: Seq<Seq<char>>, viewing: Option<Seq<char>>, from: int)
    requires
        0 <= from <= ids.len(),
    ensures
        ids.len() > 0 ==> 0 <= selected_tab(ids, viewing, from) < ids.len(),
        forall|k: int|
            from <= k < ids.len() && viewing == Some(#[trigger] ids[k]) ==> viewing == Some(
                ids[selected_tab(ids, viewing, from)],
            ),
    decreases ids.len() - from,
{
    if from < ids.len() && viewing != Some(ids[from]) {
        lemma_selected_tab(ids, viewing, from + 1);
    }
}

proof fn lemma_strip_shows(tabs: Seq<(Seq<char>, Tone, Seq<char>)>, lo: int, end: int, selected: int, k: int)
    requires
        0 <= lo <= k < end <= tabs.len(),
    ensures
        strip_spans(tabs, lo, end, selected).contains(tab_spans(tabs[k], k == selected)[1]),
        strip_spans(tabs, lo, end, selected).contains(tab_spans(tabs[k], k == selected)[0]),
    decreases end - lo,
{
    let spans = strip_spans(tabs, lo, end, selected);
    let tab = tab_spans(tabs[k], k == selected);
    if end == lo + 1 {
        assert(spans[0] == tab[0] && spans[1] == tab[1]);
    } else if k < end - 1 {
        lemma_strip_shows(tabs, lo, end - 1, selected, k);
        let before = strip_spans(tabs, lo, end - 1, selected);
        let i = choose|i: int| 0 <= i < before.len() && before[i] == tab[1];
        assert(spans[i] == tab[1]);
        let j = choose|j: int| 0 <= j < before.len() && before[j] == tab[0];
        assert(spans[j] == tab[0]);
    } else {
        let before = strip_spans(tabs, lo, end - 1, selected);
        assert(spans[before.len() + 1int] == tab[0]);
        assert(spans[before.len() + 2int] == tab[1]);
    }
}

/// The agent that is being looked at has its tab in the footer, whatever the width: its
/// sign, and its title in bold.
pub proof fn law_the_open_agent_has_its_tab(
    tasks: Seq<BackgroundTask>,
    last_active: Option<Seq<char>>,
    viewing: Option<Seq<char>>,
    frame: nat,
    width: nat,
    now: Instant,
    k: int,
)
    requires
        0 <= k < tasks.len(),
        viewing == Some(tasks[k].task_id@),
    ensures
        ({
            let ids = fleet_ids(tasks, last_active, now);
            let common = common_words(descriptions(tasks, ids));
            let tab = tab_for(tasks, tasks[k].task_id@, common, frame);
            let row = footer_row(tasks, last_active, viewing, frame, width, now);
            &&& row.contains((tab.2, Style::in_tone(Tone::TextPrimary).made_bold()))
            &&& row.contains((tab.0 + " "@, Style::in_tone(tab.1)))
        }),
{
    let ids = fleet_ids(tasks, last_active, now);
    crate::agents::law_fleet_lists_every_agent(tasks, last_active, now, k);
    let at = choose|at: int| 0 <= at < ids.len() && ids[at] == tasks[k].task_id@;
    lemma_selected_tab(ids, viewing, 0);
    let tabs = tabs_of(tasks, ids, frame);
    let selected = selected_tab(ids, viewing, 0);
    assert(viewing == Some(ids[at]));
    assert(ids[selected] == tasks[k].task_id@);
    law_window_fits(tabs, selected, width);
    let (lo, hi) = window(tabs, selected, selected, tab_columns(tabs[selected]), width);
    lemma_strip_shows(tabs, lo, hi + 1, selected, selected);
    let strip = strip_spans(tabs, lo, hi + 1, selected);
    let shown = arrowed(tabs, lo, hi, selected);
    let row = footer_row(tasks, last_active, viewing, frame, width, now);
    let tab = tab_spans(tabs[selected], true);
    let i = choose|i: int| 0 <= i < strip.len() && strip[i] == tab[1];
    let j = choose|j: int| 0 <= j < strip.len() && strip[j] == tab[0];
    let off: int = if lo > 0 {
        1
    } else {
        0
    };
    assert(shown[off + i] == tab[1]);
    assert(shown[off + j] == tab[0]);
    assert(row[off + i] == tab[1]);
    assert(row[off + j] == tab[0]);
}

/// A tab says only what sets its agent apart: the words that all descriptions begin
/// with are left out, and nothing else; a description that is all in common stays.
pub proof fn law_tabs_say_what_differs(desc: Seq<char>, common: Seq<char>)
    ensures
        crate::slicing::has_suffix(desc, own_words(desc, common)),
        desc.len() > 0 ==> own_words(desc, common).len() > 0,
        common.len() == 0 && desc.len() > 0 && !crate::text::is_space(desc[0]) ==> own_words(desc, common) == desc,
{
    let rest = match after_prefix(desc, common) {
        Some(r) => r,
        None => desc,
    };
    crate::showing::lemma_trimmed_start(rest);
    let words = own_words(desc, common);
    assert(desc.subrange(desc.len() - words.len(), desc.len() as int) =~= words);
    if common.len() == 0 {
        assert(desc.skip(0) =~= desc);
    }
}

/// The sign of a tab is that of the agent's state.
pub proof fn law_tabs_carry_the_state(tasks: Seq<BackgroundTask>, k: int, frame: nat)
    requires
        0 <= k < tasks.len(),
        agent_at(tasks, tasks[k].task_id@, 0) == Some(k),
    ensures
        described(tasks, tasks[k].task_id@) == tasks[k].description@,
        tasks[k].status == TaskLifecycle::Completed ==> tab_sign(tasks, tasks[k].task_id@, frame).0 == "✓"@,
        tasks[k].status == TaskLifecycle::Failed ==> tab_sign(tasks, tasks[k].task_id@, frame).0 == "✗"@,
        tasks[k].status == TaskLifecycle::Idle || tasks[k].status == TaskLifecycle::Pending || tasks[k].status
            == TaskLifecycle::Cancelled ==> tab_sign(tasks, tasks[k].task_id@, frame).0 == "○"@,
        tasks[k].status == TaskLifecycle::Running ==> tab_sign(tasks, tasks[k].task_id@, frame).0 == frame_glyph(
            frame,
        ),
{
}

/// Words that fit in twenty-two columns stand on the tab as they are, of longer ones the
/// beginning.
pub proof fn law_tabs_are_short(tasks: Seq<BackgroundTask>, id: Seq<char>, common: Seq<char>, frame: nat)
    ensures
        ({
            let words = own_words(described(tasks, id), common);
            let tab = tab_for(tasks, id, common, frame);
            &&& text_columns(words) <= 22 ==> tab.2 == words
            &&& text_columns(words) > 22 ==> tab.2.len() > 0 && tab.2.last() == '…' && tab.2.drop_last() == words.take(
                tab.2.len() - 1,
            )
        }),
{
    crate::fitting::law_fitting_texts_are_shown_whole(own_words(described(tasks, id), common), 22);
}

/// An arrow stands on a side exactly where tabs are hidden on it.
pub proof fn law_arrows_point_at_hidden_tabs(tabs: Seq<(Seq<char>, Tone, Seq<char>)>, lo: int, hi: int, selected: int)
    requires
        0 <= lo <= hi < tabs.len(),
    ensures
        ({
            let row = arrowed(tabs, lo, hi, selected);
            let strip = strip_spans(tabs, lo, hi + 1, selected);
            let left = if lo > 0 {
                1int
            } else {
                0
            };
            let right = if hi < tabs.len() - 1 {
                1int
            } else {
                0
            };
            &&& row.len() == strip.len() + left + right
            &&& row.subrange(left, left + strip.len()) == strip
            &&& lo > 0 ==> row[0].0 == "‹ "@
            &&& hi < tabs.len() - 1 ==> row.last().0 == " ›"@
        }),
{
    let row = arrowed(tabs, lo, hi, selected);
    let strip = strip_spans(tabs, lo, hi + 1, selected);
    if lo > 0 {
        assert(row.subrange(1, 1 + strip.len() as int) =~= strip);
    } else {
        assert(row.subrange(0, strip.len() as int) =~= strip);
    }
}

} // verus!
