//! Session recap: a brief summary of what happened while the user was away.
use vstd::prelude::*;

use crate::bytes_len::{cut_at_bytes, cut_bytes, longer_than_bytes, utf8_size};
use crate::order::{lemma_sorted_map, rank_order, sort_stable, sorted, Ranked};
use crate::showing::{lemma_has_in_sum, lemma_has_itself, lemma_has_trans, lemma_joined_has};
use crate::slicing::{group_texts, has_text, join, joined, opt_text, texts};
use crate::text::{cat2, cat3, cat5, decimal, decimal_text, same_text};

verus! {

broadcast use group_texts;

/// Least inactivity before a recap is made, in seconds.
pub const AWAY_THRESHOLD_SECS: u64 = 300;

/// Summary of a message for recap purposes.
#[derive(Debug, Clone)]
pub struct RecapMessage {
    /// Was this from the assistant?
    pub is_assistant: bool,
    /// Tool calls in this message, by tool name.
    pub tool_calls: Vec<String>,
    /// Whether any tool in this message failed.
    pub had_error: bool,
    /// Files written or edited in this message.
    pub files_changed: Vec<String>,
    /// Brief text content: the first 200 characters.
    pub text_preview: String,
}

/// What a message says for the recap.
pub struct RecapModel {
    pub is_assistant: bool,
    pub tool_calls: Seq<Seq<char>>,
    pub had_error: bool,
    pub files_changed: Seq<Seq<char>>,
    pub text_preview: Seq<char>,
}

pub open spec fn recap_model(m: RecapMessage) -> RecapModel {
    RecapModel {
        is_assistant: m.is_assistant,
        tool_calls: texts(m.tool_calls@),
        had_error: m.had_error,
        files_changed: texts(m.files_changed@),
        text_preview: m.text_preview@,
    }
}

pub open spec fn recap_models(v: Seq<RecapMessage>) -> Seq<RecapModel> {
    v.map_values(|m: RecapMessage| recap_model(m))
}

// ── what the messages hold ──────────────────────────────────────────────

/// Tool calls of the assistant, in order.
pub open spec fn all_tools(msgs: Seq<RecapModel>) -> Seq<Seq<char>>
    decreases msgs.len(),
{
    if msgs.len() == 0 {
        Seq::empty()
    } else if msgs.last().is_assistant {
        all_tools(msgs.drop_last()) + msgs.last().tool_calls
    } else {
        all_tools(msgs.drop_last())
    }
}

/// One line for each assistant message in which a tool failed.
pub open spec fn all_errors(msgs: Seq<RecapModel>) -> Seq<Seq<char>>
    decreases msgs.len(),
{
    if msgs.len() == 0 {
        Seq::empty()
    } else if msgs.last().is_assistant && msgs.last().had_error {
        all_errors(msgs.drop_last()).push(
            "Error in "@ + joined(msgs.last().tool_calls, ", "@),
        )
    } else {
        all_errors(msgs.drop_last())
    }
}

/// `item` behind `s`, unless it is already there.
pub open spec fn with_new(s: Seq<Seq<char>>, item: Seq<char>) -> Seq<Seq<char>> {
    if s.contains(item) {
        s
    } else {
        s.push(item)
    }
}

/// `s`, and behind it those of `more` that are new, each once.
pub open spec fn with_all_new(s: Seq<Seq<char>>, more: Seq<Seq<char>>) -> Seq<Seq<char>>
    decreases more.len(),
{
    if more.len() == 0 {
        s
    } else {
        with_new(with_all_new(s, more.drop_last()), more.last())
    }
}

/// Files that the assistant changed, each once, in the order of the first
/// change.
pub open spec fn all_files(msgs: Seq<RecapModel>) -> Seq<Seq<char>>
    decreases msgs.len(),
{
    if msgs.len() == 0 {
        Seq::empty()
    } else if msgs.last().is_assistant {
        with_all_new(all_files(msgs.drop_last()), msgs.last().files_changed)
    } else {
        all_files(msgs.drop_last())
    }
}

/// The first three texts of the assistant that are not empty.
pub open spec fn all_snippets(msgs: Seq<RecapModel>) -> Seq<Seq<char>>
    decreases msgs.len(),
{
    if msgs.len() == 0 {
        Seq::empty()
    } else {
        let before = all_snippets(msgs.drop_last());
        let msg = msgs.last();
        if msg.is_assistant && msg.text_preview.len() > 0 && before.len() < 3 {
            before.push(msg.text_preview)
        } else {
            before
        }
    }
}

// ── counting tool calls ─────────────────────────────────────────────────

/// A tool name with the number of its calls.
pub struct ToolTally {
    pub name: String,
    pub count: usize,
}

impl Ranked for ToolTally {
    open spec fn before(&self, other: &Self) -> bool {
        self.count > other.count
    }

    fn is_before(&self, other: &Self) -> (r: bool) {
        self.count > other.count
    }
}

/// What a tally says.
pub open spec fn tally_of(t: ToolTally) -> (Seq<char>, nat) {
    (t.name@, t.count as nat)
}

/// More calls come first.
pub open spec fn more_calls() -> spec_fn((Seq<char>, nat), (Seq<char>, nat)) -> bool {
    |a: (Seq<char>, nat), b: (Seq<char>, nat)| a.1 > b.1
}

/// The first tally of `name` at or after `from`, or the number of tallies.
pub open spec fn tally_position(t: Seq<(Seq<char>, nat)>, name: Seq<char>, from: int) -> int
    decreases t.len() - from,
{
    if from < 0 || from >= t.len() {
        t.len() as int
    } else if t[from].0 == name {
        from
    } else {
        tally_position(t, name, from + 1)
    }
}

/// The tallies with one more call of `name`.
pub open spec fn with_call(t: Seq<(Seq<char>, nat)>, name: Seq<char>) -> Seq<(Seq<char>, nat)> {
    let i = tally_position(t, name, 0);
    if 0 <= i < t.len() {
        t.update(i, (t[i].0, t[i].1 + 1))
    } else {
        t.push((name, 1nat))
    }
}

/// Calls by name, in the order of the first call.
pub open spec fn tallies(calls: Seq<Seq<char>>) -> Seq<(Seq<char>, nat)>
    decreases calls.len(),
{
    if calls.len() == 0 {
        Seq::empty()
    } else {
        with_call(tallies(calls.drop_last()), calls.last())
    }
}

/// Calls by name, the most frequent first, and otherwise in the order of the
/// first call.
pub open spec fn grouped_calls(calls: Seq<Seq<char>>) -> Seq<(Seq<char>, nat)> {
    sorted(tallies(calls), more_calls())
}

/// Every tally counts at least one call, and none more than there were.
proof fn lemma_tallies_bounded(calls: Seq<Seq<char>>)
    ensures
        forall|i: int|
            0 <= i < tallies(calls).len() ==> 1 <= (#[trigger] tallies(calls)[i]).1 <= calls.len(),
    decreases calls.len(),
{
    if calls.len() > 0 {
        lemma_tallies_bounded(calls.drop_last());
        let before = tallies(calls.drop_last());
        let after = tallies(calls);
        assert forall|i: int| 0 <= i < after.len() implies 1 <= (#[trigger] after[i]).1 <= calls.len() by {
            if i < before.len() {
                assert(1 <= before[i].1 <= calls.len() - 1);
            }
        }
    }
}

/// Group tool calls by name and count them.
pub fn group_tool_calls(calls: &Vec<String>) -> (r: Vec<ToolTally>)
    ensures
        r@.map_values(|t: ToolTally| tally_of(t)) == grouped_calls(texts(calls@)),
{
    let ghost shown = |t: ToolTally| tally_of(t);
    let mut counts: Vec<ToolTally> = Vec::new();
    let mut i: usize = 0;
    assert(texts(calls@).take(0) =~= Seq::<Seq<char>>::empty());
    assert(counts@.map_values(shown) =~= Seq::<(Seq<char>, nat)>::empty());
    while i < calls.len()
        invariant
            i <= calls@.len(),
            shown == (|t: ToolTally| tally_of(t)),
            counts@.map_values(shown) == tallies(texts(calls@).take(i as int)),
        decreases calls@.len() - i,
    {
        let ghost so_far = texts(calls@).take(i as int);
        let ghost model = counts@.map_values(shown);
        let ghost name = calls@[i as int]@;
        assert(texts(calls@).take(i + 1).drop_last() =~= so_far);
        assert(texts(calls@).take(i + 1).last() == name);
        let mut k: usize = 0;
        while k < counts.len() && !same_text(counts[k].name.as_str(), calls[i].as_str())
            invariant
                k <= counts@.len(),
                i < calls@.len(),
                name == calls@[i as int]@,
                shown == (|t: ToolTally| tally_of(t)),
                model == counts@.map_values(shown),
                tally_position(model, name, 0) == tally_position(model, name, k as int),
            decreases counts@.len() - k,
        {
            assert(model[k as int].0 == counts@[k as int].name@);
            k += 1;
        }
        if k < counts.len() {
            proof {
                assert(model[k as int].0 == counts@[k as int].name@);
                lemma_tallies_bounded(so_far);
                assert(model[k as int].1 <= so_far.len());
            }
            let bumped = ToolTally { name: counts[k].name.clone(), count: counts[k].count + 1 };
            counts.set(k, bumped);
            assert(counts@.map_values(shown) =~= with_call(model, name));
        } else {
            counts.push(ToolTally { name: calls[i].clone(), count: 1 });
            assert(counts@.map_values(shown) =~= with_call(model, name));
        }
        i += 1;
    }
    assert(texts(calls@).take(i as int) =~= texts(calls@));
    proof {
        lemma_sorted_map(counts@, shown, rank_order::<ToolTally>(), more_calls());
    }
    sort_stable(counts)
}

/// The calls of every tool are counted: the counts add up to the number of
/// calls.
pub open spec fn total_calls(t: Seq<(Seq<char>, nat)>) -> nat
    decreases t.len(),
{
    if t.len() == 0 {
        0
    } else {
        total_calls(t.drop_last()) + t.last().1
    }
}

proof fn lemma_total_update(t: Seq<(Seq<char>, nat)>, i: int)
    requires
        0 <= i < t.len(),
    ensures
        total_calls(t.update(i, (t[i].0, t[i].1 + 1))) == total_calls(t) + 1,
    decreases t.len(),
{
    let u = t.update(i, (t[i].0, t[i].1 + 1));
    if i == t.len() - 1 {
        assert(u.drop_last() =~= t.drop_last());
    } else {
        lemma_total_update(t.drop_last(), i);
        assert(u.drop_last() =~= t.drop_last().update(i, (t[i].0, t[i].1 + 1)));
    }
}

/// No call is lost and none counted twice.
pub proof fn law_tallies_count_every_call(calls: Seq<Seq<char>>)
    ensures
        total_calls(tallies(calls)) == calls.len(),
    decreases calls.len(),
{
    if calls.len() > 0 {
        let before = tallies(calls.drop_last());
        law_tallies_count_every_call(calls.drop_last());
        let i = tally_position(before, calls.last(), 0);
        if 0 <= i < before.len() {
            lemma_total_update(before, i);
        } else {
            let after = before.push((calls.last(), 1nat));
            assert(after.drop_last() =~= before);
        }
    }
}

/// The recap lists the tools from the most to the least used.
pub proof fn law_grouped_calls_descend(calls: Seq<Seq<char>>)
    ensures
        crate::order::in_order(grouped_calls(calls), more_calls()),
        grouped_calls(calls).to_multiset() == tallies(calls).to_multiset(),
{
    crate::order::law_sorted_is_in_order(tallies(calls), more_calls());
    crate::order::law_sorted_is_a_permutation(tallies(calls), more_calls());
}

// ── the lines ───────────────────────────────────────────────────────────

/// `Read ×2`, or just the name for a single call.
pub open spec fn tally_text(t: (Seq<char>, nat)) -> Seq<char> {
    if t.1 > 1 {
        t.0 + " ×"@ + decimal(t.1)
    } else {
        t.0
    }
}

/// The line on tool calls.
pub open spec fn tools_line(calls: Seq<Seq<char>>) -> Seq<Seq<char>> {
    if calls.len() > 0 {
        seq![
            "Tools: "@ + joined(
                grouped_calls(calls).map_values(|t: (Seq<char>, nat)| tally_text(t)),
                ", "@,
            ),
        ]
    } else {
        Seq::empty()
    }
}

/// The line on files: up to five are listed, of more the first three.
pub open spec fn files_line(files: Seq<Seq<char>>) -> Seq<Seq<char>> {
    if files.len() == 0 {
        Seq::empty()
    } else if files.len() <= 5 {
        seq!["Files: "@ + joined(files, ", "@)]
    } else {
        seq![
            "Files: "@ + joined(files.take(3), ", "@) + " (+"@ + decimal((files.len() - 3) as nat)
                + " more)"@,
        ]
    }
}

/// The lines on errors: their number, and the first three.
pub open spec fn error_lines(errors: Seq<Seq<char>>) -> Seq<Seq<char>> {
    if errors.len() == 0 {
        Seq::empty()
    } else {
        let shown = if errors.len() < 3 {
            errors
        } else {
            errors.take(3)
        };
        seq!["Errors: "@ + decimal(errors.len())] + shown.map_values(|e: Seq<char>| "  · "@ + e)
    }
}

/// A snippet, cut where it takes more than 120 bytes.
pub open spec fn snippet_text(s: Seq<char>) -> Seq<char> {
    if utf8_size(s) > 120 {
        cut_at_bytes(s, 120) + "…"@
    } else {
        s
    }
}

/// The line on the last snippet.
pub open spec fn snippet_line(snippets: Seq<Seq<char>>) -> Seq<Seq<char>> {
    if snippets.len() == 0 {
        Seq::empty()
    } else {
        seq!["Last: "@ + snippet_text(snippets.last())]
    }
}

/// All lines of the recap.
pub open spec fn recap_lines(msgs: Seq<RecapModel>) -> Seq<Seq<char>> {
    seq!["While you were away"@] + tools_line(all_tools(msgs)) + files_line(all_files(msgs))
        + error_lines(all_errors(msgs)) + snippet_line(all_snippets(msgs))
}

/// The recap of the messages, if anything happened.
pub open spec fn recap(msgs: Seq<RecapModel>) -> Option<Seq<char>> {
    if all_tools(msgs).len() == 0 && all_errors(msgs).len() == 0 && all_files(msgs).len() == 0 {
        None
    } else {
        Some(joined(recap_lines(msgs), "\n"@))
    }
}

// ── building it ─────────────────────────────────────────────────────────

fn push_all(out: &mut Vec<String>, more: &Vec<String>)
    ensures
        texts(final(out)@) == texts(old(out)@) + texts(more@),
{
    let mut i: usize = 0;
    assert(texts(more@).take(0) =~= Seq::<Seq<char>>::empty());
    while i < more.len()
        invariant
            i <= more@.len(),
            texts(out@) == texts(old(out)@) + texts(more@).take(i as int),
        decreases more@.len() - i,
    {
        let ghost before = texts(out@);
        out.push(more[i].clone());
        assert(texts(more@).take(i + 1) =~= texts(more@).take(i as int).push(more@[i as int]@));
        assert(texts(out@) =~= texts(old(out)@) + texts(more@).take(i + 1));
        i += 1;
    }
    assert(texts(more@).take(i as int) =~= texts(more@));
}

/// Whether `v` holds `s`.
pub fn has_string(v: &Vec<String>, s: &str) -> (r: bool)
    ensures
        r == texts(v@).contains(s@),
{
    let mut i: usize = 0;
    while i < v.len()
        invariant
            i <= v@.len(),
            forall|j: int| 0 <= j < i ==> texts(v@)[j] != s@,
        decreases v@.len() - i,
    {
        if same_text(v[i].as_str(), s) {
            assert(texts(v@)[i as int] == s@);
            return true;
        }
        i += 1;
    }
    false
}

fn push_new(out: &mut Vec<String>, more: &Vec<String>)
    ensures
        texts(final(out)@) == with_all_new(texts(old(out)@), texts(more@)),
{
    let mut i: usize = 0;
    assert(texts(more@).take(0) =~= Seq::<Seq<char>>::empty());
    while i < more.len()
        invariant
            i <= more@.len(),
            texts(out@) == with_all_new(texts(old(out)@), texts(more@).take(i as int)),
        decreases more@.len() - i,
    {
        assert(texts(more@).take(i + 1).drop_last() =~= texts(more@).take(i as int));
        assert(texts(more@).take(i + 1).last() == more@[i as int]@);
        if !has_string(out, more[i].as_str()) {
            out.push(more[i].clone());
        }
        i += 1;
    }
    assert(texts(more@).take(i as int) =~= texts(more@));
}

fn first_strings(v: &Vec<String>, n: usize) -> (r: Vec<String>)
    requires
        n <= v@.len(),
    ensures
        texts(r@) == texts(v@).take(n as int),
{
    let mut out: Vec<String> = Vec::new();
    let mut i: usize = 0;
    assert(texts(v@).take(0) =~= Seq::<Seq<char>>::empty());
    while i < n
        invariant
            i <= n <= v@.len(),
            texts(out@) == texts(v@).take(i as int),
        decreases n - i,
    {
        out.push(v[i].clone());
        assert(texts(v@).take(i + 1) =~= texts(v@).take(i as int).push(v@[i as int]@));
        i += 1;
    }
    out
}

fn push_tools_line(lines: &mut Vec<String>, calls: &Vec<String>)
    ensures
        texts(final(lines)@) == texts(old(lines)@) + tools_line(texts(calls@)),
{
    if calls.len() > 0 {
        let grouped = group_tool_calls(calls);
        let ghost model = grouped_calls(texts(calls@));
        let ghost line_of = |t: (Seq<char>, nat)| tally_text(t);
        let mut summary: Vec<String> = Vec::new();
        let mut i: usize = 0;
        assert(texts(summary@) =~= model.map_values(line_of).take(0));
        while i < grouped.len()
            invariant
                i <= grouped@.len(),
                model == grouped@.map_values(|t: ToolTally| tally_of(t)),
                line_of == (|t: (Seq<char>, nat)| tally_text(t)),
                texts(summary@) == model.map_values(line_of).take(i as int),
            decreases grouped@.len() - i,
        {
            assert(model[i as int] == tally_of(grouped@[i as int]));
            let text = if grouped[i].count > 1 {
                cat3(grouped[i].name.as_str(), " ×", decimal_text(grouped[i].count as u64).as_str())
            } else {
                grouped[i].name.clone()
            };
            summary.push(text);
            assert(model.map_values(line_of).take(i + 1) =~= model.map_values(line_of).take(
                i as int,
            ).push(tally_text(model[i as int])));
            i += 1;
        }
        assert(model.map_values(line_of).take(i as int) =~= model.map_values(line_of));
        lines.push(cat2("Tools: ", join(&summary, ", ").as_str()));
    }
    assert(texts(lines@) =~= texts(old(lines)@) + tools_line(texts(calls@)));
}

fn push_files_line(lines: &mut Vec<String>, files: &Vec<String>)
    ensures
        texts(final(lines)@) == texts(old(lines)@) + files_line(texts(files@)),
{
    if files.len() > 0 {
        if files.len() <= 5 {
            lines.push(cat2("Files: ", join(files, ", ").as_str()));
        } else {
            let shown = first_strings(files, 3);
            lines.push(
                cat5(
                    "Files: ",
                    join(&shown, ", ").as_str(),
                    " (+",
                    decimal_text((files.len() - 3) as u64).as_str(),
                    " more)",
                ),
            );
        }
    }
    assert(texts(lines@) =~= texts(old(lines)@) + files_line(texts(files@)));
}

fn push_error_lines(lines: &mut Vec<String>, errors: &Vec<String>)
    ensures
        texts(final(lines)@) == texts(old(lines)@) + error_lines(texts(errors@)),
{
    if errors.len() > 0 {
        lines.push(cat2("Errors: ", decimal_text(errors.len() as u64).as_str()));
        let n: usize = if errors.len() < 3 {
            errors.len()
        } else {
            3
        };
        let ghost all = texts(errors@);
        let ghost line_of = |e: Seq<char>| "  · "@ + e;
        let ghost head = texts(lines@);
        let mut i: usize = 0;
        assert(head + all.take(0).map_values(line_of) =~= head);
        while i < n
            invariant
                i <= n <= errors@.len(),
                all == texts(errors@),
                line_of == (|e: Seq<char>| "  · "@ + e),
                texts(lines@) == head + all.take(i as int).map_values(line_of),
            decreases n - i,
        {
            lines.push(cat2("  · ", errors[i].as_str()));
            assert(all.take(i + 1).map_values(line_of) =~= all.take(i as int).map_values(line_of).push(
                "  · "@ + errors@[i as int]@,
            ));
            assert(texts(lines@) =~= head + all.take(i + 1).map_values(line_of));
            i += 1;
        }
        assert(all.take(all.len() as int) =~= all);
    }
    assert(texts(lines@) =~= texts(old(lines)@) + error_lines(texts(errors@)));
}

/// Generate a recap of activity since the user's last interaction, or `None` if
/// nothing worth telling happened.
pub fn generate_recap(messages_since_last_interaction: &[RecapMessage]) -> (r: Option<String>)
    ensures
        opt_text(r) == recap(recap_models(messages_since_last_interaction@)),
{
    let msgs = messages_since_last_interaction;
    let ghost all = recap_models(msgs@);
    let mut tool_calls: Vec<String> = Vec::new();
    let mut errors: Vec<String> = Vec::new();
    let mut files_changed: Vec<String> = Vec::new();
    let mut snippets: Vec<String> = Vec::new();
    let mut i: usize = 0;
    while i < msgs.len()
        invariant
            i <= msgs@.len(),
            all == recap_models(msgs@),
            texts(tool_calls@) == all_tools(all.take(i as int)),
            texts(errors@) == all_errors(all.take(i as int)),
            texts(files_changed@) == all_files(all.take(i as int)),
            texts(snippets@) == all_snippets(all.take(i as int)),
        decreases msgs@.len() - i,
    {
        let ghost next = all.take(i + 1);
        assert(next.drop_last() =~= all.take(i as int));
        assert(next.last() == recap_model(msgs@[i as int]));
        let msg = &msgs[i];
        if msg.is_assistant {
            push_all(&mut tool_calls, &msg.tool_calls);
            if msg.had_error {
                errors.push(cat2("Error in ", join(&msg.tool_calls, ", ").as_str()));
            }
            push_new(&mut files_changed, &msg.files_changed);
            if !msg.text_preview.as_str().is_empty() && snippets.len() < 3 {
                snippets.push(msg.text_preview.clone());
            }
        }
        i += 1;
    }
    assert(all.take(i as int) =~= all);
    if tool_calls.len() == 0 && errors.len() == 0 && files_changed.len() == 0 {
        return None;
    }
    let mut lines: Vec<String> = Vec::new();
    lines.push("While you were away".to_owned());
    assert(texts(lines@) =~= seq!["While you were away"@]);
    push_tools_line(&mut lines, &tool_calls);
    push_files_line(&mut lines, &files_changed);
    push_error_lines(&mut lines, &errors);
    if snippets.len() > 0 {
        let snippet = &snippets[snippets.len() - 1];
        assert(texts(snippets@).last() == snippet@);
        let shown = if longer_than_bytes(snippet.as_str(), 120) {
            cat2(cut_bytes(snippet.as_str(), 120).as_str(), "…")
        } else {
            snippet.clone()
        };
        lines.push(cat2("Last: ", shown.as_str()));
    }
    assert(texts(lines@) =~= recap_lines(all));
    Some(join(&lines, "\n"))
}

proof fn lemma_with_all_new_distinct(s: Seq<Seq<char>>, more: Seq<Seq<char>>)
    requires
        s.no_duplicates(),
    ensures
        with_all_new(s, more).no_duplicates(),
        forall|f: Seq<char>|
            #[trigger] with_all_new(s, more).contains(f) <==> s.contains(f) || more.contains(f),
    decreases more.len(),
{
    if more.len() > 0 {
        let rest = more.drop_last();
        lemma_with_all_new_distinct(s, rest);
        let w = with_all_new(s, rest);
        let item = more.last();
        assert forall|f: Seq<char>|
            #[trigger] with_all_new(s, more).contains(f) <==> s.contains(f) || more.contains(f) by {
            if more.contains(f) {
                let i = choose|i: int| 0 <= i < more.len() && more[i] == f;
                if i < rest.len() {
                    assert(rest[i] == f);
                }
            }
            if rest.contains(f) {
                let i = choose|i: int| 0 <= i < rest.len() && rest[i] == f;
                assert(more[i] == f);
            }
            assert(more[more.len() - 1] == item);
            if !w.contains(item) {
                let p = w.push(item);
                if w.contains(f) {
                    let i = choose|i: int| 0 <= i < w.len() && w[i] == f;
                    assert(p[i] == f);
                }
                assert(p[p.len() - 1] == item);
                if p.contains(f) {
                    let i = choose|i: int| 0 <= i < p.len() && p[i] == f;
                    if i < w.len() {
                        assert(w[i] == f);
                    }
                }
            }
        }
    }
}

/// No file is listed twice, and every file that the assistant changed counts.
pub proof fn law_files_are_listed_once(msgs: Seq<RecapModel>, k: int, f: Seq<char>)
    requires
        0 <= k < msgs.len(),
        msgs[k].is_assistant,
        msgs[k].files_changed.contains(f),
    ensures
        all_files(msgs).no_duplicates(),
        all_files(msgs).contains(f),
    decreases msgs.len(),
{
    lemma_files_distinct(msgs);
    let rest = msgs.drop_last();
    lemma_files_distinct(rest);
    if k == rest.len() {
        lemma_with_all_new_distinct(all_files(rest), msgs.last().files_changed);
    } else {
        law_files_are_listed_once(rest, k, f);
        if msgs.last().is_assistant {
            lemma_with_all_new_distinct(all_files(rest), msgs.last().files_changed);
        }
    }
}

proof fn lemma_files_distinct(msgs: Seq<RecapModel>)
    ensures
        all_files(msgs).no_duplicates(),
    decreases msgs.len(),
{
    if msgs.len() > 0 {
        lemma_files_distinct(msgs.drop_last());
        if msgs.last().is_assistant {
            lemma_with_all_new_distinct(
                all_files(msgs.drop_last()),
                msgs.last().files_changed,
            );
        }
    }
}

// ── laws of the recap ───────────────────────────────────────────────────

/// How often a tool was called.
pub open spec fn times_called(calls: Seq<Seq<char>>, name: Seq<char>) -> nat
    decreases calls.len(),
{
    if calls.len() == 0 {
        0
    } else {
        times_called(calls.drop_last(), name) + (if calls.last() == name {
            1nat
        } else {
            0
        })
    }
}

proof fn lemma_tally_position(t: Seq<(Seq<char>, nat)>, name: Seq<char>, from: int)
    requires
        0 <= from <= t.len(),
    ensures
        from <= tally_position(t, name, from) <= t.len(),
        tally_position(t, name, from) < t.len() ==> t[tally_position(t, name, from)].0 == name,
        forall|i: int| from <= i < tally_position(t, name, from) ==> (#[trigger] t[i]).0 != name,
    decreases t.len() - from,
{
    if from < t.len() {
        lemma_tally_position(t, name, from + 1);
    }
}

/// Every tool that was called is tallied once, with the number of its calls.
pub proof fn law_each_tool_has_its_count(calls: Seq<Seq<char>>)
    ensures
        forall|i: int|
            0 <= i < tallies(calls).len() ==> (#[trigger] tallies(calls)[i]).1 == times_called(
                calls,
                tallies(calls)[i].0,
            ) && tallies(calls)[i].1 > 0,
        forall|i: int, j: int|
            0 <= i < j < tallies(calls).len() ==> (#[trigger] tallies(calls)[i]).0 != (#[trigger] tallies(calls)[j]).0,
        forall|k: int|
            0 <= k < calls.len() ==> exists|i: int|
                0 <= i < tallies(calls).len() && (#[trigger] tallies(calls)[i]).0 == #[trigger] calls[k],
    decreases calls.len(),
{
    if calls.len() > 0 {
        let front = calls.drop_last();
        let name = calls.last();
        law_each_tool_has_its_count(front);
        let before = tallies(front);
        let after = tallies(calls);
        lemma_tally_position(before, name, 0);
        let at = tally_position(before, name, 0);
        if at == before.len() {
            lemma_never_called(front, name);
        }
        assert forall|i: int| 0 <= i < after.len() implies (#[trigger] after[i]).1 == times_called(calls, after[i].0)
            && after[i].1 > 0 by {
            if i < before.len() {
                assert(before[i].1 == times_called(front, before[i].0));
                if at < before.len() && i != at {
                    assert(before[i].0 != before[at].0);
                }
            }
        }
        assert forall|i: int, j: int| 0 <= i < j < after.len() implies (#[trigger] after[i]).0 != (
        #[trigger] after[j]).0 by {
            if j < before.len() {
                assert(before[i].0 != before[j].0);
            } else {
                assert(before[i].0 != name);
            }
        }
        assert forall|k: int| 0 <= k < calls.len() implies exists|i: int|
            0 <= i < after.len() && (#[trigger] after[i]).0 == #[trigger] calls[k] by {
            if k < front.len() {
                assert(front[k] == calls[k]);
                let i = choose|i: int| 0 <= i < before.len() && (#[trigger] before[i]).0 == front[k];
                assert(after[i].0 == calls[k]);
            } else {
                let i = if at < before.len() {
                    at
                } else {
                    before.len() as int
                };
                assert(after[i].0 == name);
            }
        }
    }
}

proof fn lemma_never_called(calls: Seq<Seq<char>>, name: Seq<char>)
    requires
        forall|i: int| 0 <= i < tallies(calls).len() ==> (#[trigger] tallies(calls)[i]).0 != name,
        forall|k: int|
            0 <= k < calls.len() ==> exists|i: int|
                0 <= i < tallies(calls).len() && (#[trigger] tallies(calls)[i]).0 == #[trigger] calls[k],
    ensures
        times_called(calls, name) == 0,
{
    assert forall|k: int| 0 <= k < calls.len() implies #[trigger] calls[k] != name by {
        let i = choose|i: int| 0 <= i < tallies(calls).len() && (#[trigger] tallies(calls)[i]).0 == calls[k];
        assert(tallies(calls)[i].0 != name);
    }
    lemma_not_among(calls, name);
}

proof fn lemma_not_among(calls: Seq<Seq<char>>, name: Seq<char>)
    requires
        forall|k: int| 0 <= k < calls.len() ==> #[trigger] calls[k] != name,
    ensures
        times_called(calls, name) == 0,
    decreases calls.len(),
{
    if calls.len() > 0 {
        assert(calls.last() == calls[calls.len() - 1]);
        let front = calls.drop_last();
        assert forall|k: int| 0 <= k < front.len() implies #[trigger] front[k] != name by {
            assert(front[k] == calls[k]);
        }
        lemma_not_among(front, name);
    }
}

/// The message is worth telling: the assistant called a tool, failed, or changed a
/// file.
pub open spec fn is_news(m: RecapModel) -> bool {
    m.is_assistant && (m.tool_calls.len() > 0 || m.had_error || m.files_changed.len() > 0)
}

/// How many messages of the assistant failed.
pub open spec fn failures(msgs: Seq<RecapModel>) -> nat
    decreases msgs.len(),
{
    if msgs.len() == 0 {
        0
    } else {
        failures(msgs.drop_last()) + (if msgs.last().is_assistant && msgs.last().had_error {
            1nat
        } else {
            0
        })
    }
}

proof fn lemma_with_all_new_len(s: Seq<Seq<char>>, more: Seq<Seq<char>>)
    ensures
        (with_all_new(s, more).len() == 0) == (s.len() == 0 && more.len() == 0),
        with_all_new(s, more).len() >= s.len(),
    decreases more.len(),
{
    if more.len() > 0 {
        lemma_with_all_new_len(s, more.drop_last());
        if with_all_new(s, more.drop_last()).contains(more.last()) {
            let i = choose|i: int|
                0 <= i < with_all_new(s, more.drop_last()).len() && with_all_new(s, more.drop_last())[i]
                    == more.last();
        }
    }
}

proof fn lemma_news(msgs: Seq<RecapModel>)
    ensures
        (all_tools(msgs).len() == 0 && all_errors(msgs).len() == 0 && all_files(msgs).len() == 0) == (forall|i: int|
            0 <= i < msgs.len() ==> !is_news(#[trigger] msgs[i])),
        all_errors(msgs).len() == failures(msgs),
    decreases msgs.len(),
{
    if msgs.len() > 0 {
        let front = msgs.drop_last();
        lemma_news(front);
        let m = msgs.last();
        assert(m == msgs[msgs.len() - 1]);
        if m.is_assistant {
            lemma_with_all_new_len(all_files(front), m.files_changed);
        }
        assert forall|i: int| 0 <= i < front.len() implies #[trigger] front[i] == msgs[i] by {}
        if forall|i: int| 0 <= i < msgs.len() ==> !is_news(#[trigger] msgs[i]) {
            assert forall|i: int| 0 <= i < front.len() implies !is_news(#[trigger] front[i]) by {
                assert(!is_news(msgs[i]));
            }
        } else {
            let k = choose|k: int| 0 <= k < msgs.len() && is_news(#[trigger] msgs[k]);
            if k < front.len() {
                assert(is_news(front[k]));
            }
        }
    }
}

/// There is a recap exactly where the assistant called a tool, failed or changed a
/// file.
pub proof fn law_recap_tells_only_news(msgs: Seq<RecapModel>)
    ensures
        recap(msgs) is Some <==> exists|i: int| 0 <= i < msgs.len() && is_news(#[trigger] msgs[i]),
{
    lemma_news(msgs);
}

proof fn lemma_tools_are_all(msgs: Seq<RecapModel>, k: int, t: int)
    requires
        0 <= k < msgs.len(),
        msgs[k].is_assistant,
        0 <= t < msgs[k].tool_calls.len(),
    ensures
        all_tools(msgs).contains(msgs[k].tool_calls[t]),
    decreases msgs.len(),
{
    let front = msgs.drop_last();
    if k < front.len() {
        lemma_tools_are_all(front, k, t);
        let i = choose|i: int| 0 <= i < all_tools(front).len() && all_tools(front)[i] == msgs[k].tool_calls[t];
        assert(all_tools(msgs)[i] == msgs[k].tool_calls[t]);
    } else {
        assert(all_tools(msgs)[all_tools(front).len() + t] == msgs[k].tool_calls[t]);
    }
}

proof fn lemma_recap_has_line(msgs: Seq<RecapModel>, i: int)
    requires
        recap(msgs) is Some,
        0 <= i < recap_lines(msgs).len(),
    ensures
        has_text(recap(msgs)->0, recap_lines(msgs)[i]),
{
    lemma_joined_has(recap_lines(msgs), "\n"@, i);
}

/// The recap names every tool that the assistant called, with the number of its
/// calls where there are several.
pub proof fn law_recap_names_every_tool(msgs: Seq<RecapModel>, k: int, t: int)
    requires
        0 <= k < msgs.len(),
        msgs[k].is_assistant,
        0 <= t < msgs[k].tool_calls.len(),
    ensures
        recap(msgs) is Some,
        has_text(recap(msgs)->0, msgs[k].tool_calls[t]),
        ({
            let n = times_called(all_tools(msgs), msgs[k].tool_calls[t]);
            n > 1 ==> has_text(recap(msgs)->0, msgs[k].tool_calls[t] + " ×"@ + decimal(n))
        }),
{
    let calls = all_tools(msgs);
    let name = msgs[k].tool_calls[t];
    assert(is_news(msgs[k]));
    law_recap_tells_only_news(msgs);
    lemma_tools_are_all(msgs, k, t);
    let c = choose|c: int| 0 <= c < calls.len() && calls[c] == name;
    law_each_tool_has_its_count(calls);
    let i = choose|i: int| 0 <= i < tallies(calls).len() && (#[trigger] tallies(calls)[i]).0 == calls[c];
    let tally = tallies(calls)[i];
    law_grouped_calls_descend(calls);
    vstd::seq_lib::to_multiset_contains(tallies(calls), tally);
    assert(tallies(calls).contains(tally));
    vstd::seq_lib::to_multiset_contains(grouped_calls(calls), tally);
    let g = choose|g: int| 0 <= g < grouped_calls(calls).len() && grouped_calls(calls)[g] == tally;
    let shown = grouped_calls(calls).map_values(|t: (Seq<char>, nat)| tally_text(t));
    assert(shown[g] == tally_text(tally));
    lemma_joined_has(shown, ", "@, g);
    let line = "Tools: "@ + joined(shown, ", "@);
    lemma_has_in_sum("Tools: "@, joined(shown, ", "@), tally_text(tally));
    assert(recap_lines(msgs)[1] == line);
    lemma_recap_has_line(msgs, 1);
    lemma_has_trans(recap(msgs)->0, line, tally_text(tally));
    lemma_has_itself(name);
    lemma_has_in_sum(name, " ×"@, name);
    lemma_has_in_sum(name + " ×"@, decimal(tally.1), name);
    lemma_has_trans(recap(msgs)->0, tally_text(tally), name);
}

/// The recap names every changed file where there are at most five, and otherwise
/// the first three and how many more there are.
pub proof fn law_recap_names_the_files(msgs: Seq<RecapModel>, f: int)
    requires
        0 <= f < all_files(msgs).len(),
        all_files(msgs).len() <= 5 || f < 3,
    ensures
        recap(msgs) is Some,
        has_text(recap(msgs)->0, all_files(msgs)[f]),
        all_files(msgs).len() > 5 ==> has_text(recap(msgs)->0, decimal((all_files(msgs).len() - 3) as nat)),
{
    let files = all_files(msgs);
    let at = 1 + tools_line(all_tools(msgs)).len();
    let line = files_line(files)[0];
    assert(recap_lines(msgs)[at as int] == line);
    lemma_recap_has_line(msgs, at as int);
    if files.len() <= 5 {
        lemma_joined_has(files, ", "@, f);
        lemma_has_in_sum("Files: "@, joined(files, ", "@), files[f]);
    } else {
        let few = files.take(3);
        lemma_joined_has(few, ", "@, f);
        assert(few[f] == files[f]);
        let more = decimal((files.len() - 3) as nat);
        let a = "Files: "@ + joined(few, ", "@);
        lemma_has_in_sum("Files: "@, joined(few, ", "@), files[f]);
        lemma_has_in_sum(a, " (+"@, files[f]);
        lemma_has_in_sum(a + " (+"@, more, files[f]);
        lemma_has_in_sum(a + " (+"@ + more, " more)"@, files[f]);
        lemma_has_in_sum(a + " (+"@ + more, " more)"@, more);
        lemma_has_trans(recap(msgs)->0, line, more);
    }
    lemma_has_trans(recap(msgs)->0, line, files[f]);
}

/// The recap says how many messages failed.
pub proof fn law_recap_counts_failures(msgs: Seq<RecapModel>)
    requires
        failures(msgs) > 0,
    ensures
        recap(msgs) is Some,
        has_text(recap(msgs)->0, "Errors: "@ + decimal(failures(msgs))),
{
    lemma_news(msgs);
    let at = 1 + tools_line(all_tools(msgs)).len() + files_line(all_files(msgs)).len();
    let line = "Errors: "@ + decimal(failures(msgs));
    assert(error_lines(all_errors(msgs))[0] == line);
    assert(recap_lines(msgs)[at as int] == line);
    lemma_recap_has_line(msgs, at as int);
}

/// What the user did themselves is no part of the recap.
pub proof fn law_recap_passes_over_the_user(msgs: Seq<RecapModel>, m: RecapModel)
    requires
        !m.is_assistant,
    ensures
        recap(msgs.push(m)) == recap(msgs),
{
    assert(msgs.push(m).drop_last() =~= msgs);
}

/// The first three texts of the assistant are quoted, and no others: what is said later
/// takes the place of none.
pub proof fn law_the_first_texts_are_quoted(msgs: Seq<RecapModel>, m: RecapModel)
    ensures
        all_snippets(msgs).len() <= 3,
        all_snippets(msgs.push(m)).take(all_snippets(msgs).len() as int) == all_snippets(msgs),
        m.is_assistant && m.text_preview.len() > 0 && all_snippets(msgs).len() < 3 ==> all_snippets(msgs.push(m))
            == all_snippets(msgs).push(m.text_preview),
        !m.is_assistant || m.text_preview.len() == 0 || all_snippets(msgs).len() == 3 ==> all_snippets(msgs.push(m))
            == all_snippets(msgs),
    decreases msgs.len(),
{
    assert(msgs.push(m).drop_last() =~= msgs);
    if msgs.len() > 0 {
        law_the_first_texts_are_quoted(msgs.drop_last(), msgs.last());
        assert(msgs.drop_last().push(msgs.last()) =~= msgs);
    }
    assert(all_snippets(msgs.push(m)).take(all_snippets(msgs).len() as int) =~= all_snippets(msgs));
}

/// A text of up to 120 bytes is quoted whole, of a longer one the beginning, with a sign
/// that more follows.
pub proof fn law_short_texts_are_quoted_whole(s: Seq<char>)
    ensures
        utf8_size(s) <= 120 ==> snippet_text(s) == s,
        utf8_size(s) > 120 ==> snippet_text(s).len() > 0 && snippet_text(s).last() == '…'
            && snippet_text(s).drop_last() == cut_at_bytes(s, 120),
{
    reveal_strlit("…");
    assert((cut_at_bytes(s, 120) + "…"@).drop_last() =~= cut_at_bytes(s, 120));
}

/// All errors are counted, and the first three are told.
pub proof fn law_first_errors_are_told(errors: Seq<Seq<char>>, i: int)
    ensures
        errors.len() == 0 ==> error_lines(errors).len() == 0,
        0 < errors.len() <= 3 ==> error_lines(errors).len() == errors.len() + 1,
        errors.len() > 3 ==> error_lines(errors).len() == 4,
        errors.len() > 0 ==> error_lines(errors)[0] == "Errors: "@ + decimal(errors.len()),
        0 <= i < errors.len() && i < 3 ==> error_lines(errors)[i + 1] == "  · "@ + errors[i],
{
}

} // verus!
