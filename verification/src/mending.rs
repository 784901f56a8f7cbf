//! What saving and mending a transcript keep: everything that was said, done and
//! attached, by whom and in which order, but for messages that say nothing and
//! tool calls that stand on the user's side.
use vstd::prelude::*;

use crate::compaction::{
    closed_message, closed_part, closed_parts, closed_tool, coalesced, continues, is_placeholder, joined_texts, merged,
    persistent, repaired, saved_messages, stripped_of_orphans, terminalized, with_joined_texts, with_message, with_part,
    without_orphans, without_placeholders, without_tools, TerminalizeTail,
};
use crate::slicing::trimmed;
use crate::transcript::{is_boundary, AttachmentKind, MessageModel, PartModel, Role, ToolModel, ToolStatus};

verus! {

// ── what a transcript holds ─────────────────────────────────────────────

/// The text of parts, in order.
pub open spec fn text_in(parts: Seq<PartModel>) -> Seq<char>
    decreases parts.len(),
{
    if parts.len() == 0 {
        Seq::empty()
    } else {
        match parts.last() {
            PartModel::Text(t) => text_in(parts.drop_last()) + t,
            _ => text_in(parts.drop_last()),
        }
    }
}

/// The parts that are no text, in order.
pub open spec fn deeds_in(parts: Seq<PartModel>) -> Seq<PartModel>
    decreases parts.len(),
{
    if parts.len() == 0 {
        Seq::empty()
    } else if parts.last() is Text {
        deeds_in(parts.drop_last())
    } else {
        deeds_in(parts.drop_last()).push(parts.last())
    }
}

/// The text that one side said.
pub open spec fn said(role: Role, msgs: Seq<MessageModel>) -> Seq<char>
    decreases msgs.len(),
{
    if msgs.len() == 0 {
        Seq::empty()
    } else if msgs.last().role == role {
        said(role, msgs.drop_last()) + text_in(msgs.last().parts)
    } else {
        said(role, msgs.drop_last())
    }
}

/// What one side did besides speaking.
pub open spec fn done(role: Role, msgs: Seq<MessageModel>) -> Seq<PartModel>
    decreases msgs.len(),
{
    if msgs.len() == 0 {
        Seq::empty()
    } else if msgs.last().role == role {
        done(role, msgs.drop_last()) + deeds_in(msgs.last().parts)
    } else {
        done(role, msgs.drop_last())
    }
}

/// What one side attached.
pub open spec fn attached(role: Role, msgs: Seq<MessageModel>) -> Seq<(u64, AttachmentKind, Seq<u8>)>
    decreases msgs.len(),
{
    if msgs.len() == 0 {
        Seq::empty()
    } else if msgs.last().role == role {
        attached(role, msgs.drop_last()) + msgs.last().attachments
    } else {
        attached(role, msgs.drop_last())
    }
}

/// A message of the assistant that says, does and carries nothing.
pub open spec fn says_nothing(m: MessageModel) -> bool {
    &&& m.role == Role::Assistant
    &&& !m.queued
    &&& m.attachments.len() == 0
    &&& forall|i: int|
        0 <= i < m.parts.len() ==> match #[trigger] m.parts[i] {
            PartModel::Text(s) => trimmed(s).len() == 0,
            PartModel::Reasoning(s) => trimmed(s).len() == 0,
            PartModel::Advisor(s) => trimmed(s).len() == 0,
            _ => false,
        }
}

/// A message of the user that holds nothing but tool calls.
pub open spec fn holds_only_tools(m: MessageModel) -> bool {
    m.role == Role::User && forall|i: int| 0 <= i < m.parts.len() ==> (#[trigger] m.parts[i]) is Tool
}

/// The messages that are worth keeping.
pub open spec fn worth_keeping(msgs: Seq<MessageModel>) -> Seq<MessageModel>
    decreases msgs.len(),
{
    if msgs.len() == 0 {
        msgs
    } else if says_nothing(msgs.last()) || holds_only_tools(msgs.last()) {
        worth_keeping(msgs.drop_last())
    } else {
        worth_keeping(msgs.drop_last()).push(msgs.last())
    }
}

/// The messages that are worth saving: those that were sent and say something.
pub open spec fn worth_saving(msgs: Seq<MessageModel>) -> Seq<MessageModel>
    decreases msgs.len(),
{
    if msgs.len() == 0 {
        msgs
    } else if says_nothing(msgs.last()) || msgs.last().queued {
        worth_saving(msgs.drop_last())
    } else {
        worth_saving(msgs.drop_last()).push(msgs.last())
    }
}

// ── one message ─────────────────────────────────────────────────────────

proof fn lemma_placeholder_says_nothing(m: MessageModel)
    ensures
        is_placeholder(m) == says_nothing(m),
{
    if says_nothing(m) {
        assert forall|i: int| 0 <= i < m.parts.len() implies !crate::compaction::has_content(
            #[trigger] m.parts[i],
        ) by {}
    } else if is_placeholder(m) {
        assert forall|i: int| 0 <= i < m.parts.len() implies match #[trigger] m.parts[i] {
            PartModel::Text(s) => trimmed(s).len() == 0,
            PartModel::Reasoning(s) => trimmed(s).len() == 0,
            PartModel::Advisor(s) => trimmed(s).len() == 0,
            _ => false,
        } by {
            assert(!crate::compaction::has_content(m.parts[i]));
        }
    }
}

proof fn lemma_contents_add(a: Seq<PartModel>, b: Seq<PartModel>)
    ensures
        text_in(a + b) == text_in(a) + text_in(b),
        deeds_in(a + b) == deeds_in(a) + deeds_in(b),
    decreases b.len(),
{
    if b.len() == 0 {
        assert(a + b =~= a);
        assert(text_in(a) + text_in(b) =~= text_in(a));
        assert(deeds_in(a) + deeds_in(b) =~= deeds_in(a));
    } else {
        lemma_contents_add(a, b.drop_last());
        assert((a + b).drop_last() =~= a + b.drop_last());
        assert((a + b).last() == b.last());
        assert(text_in(a + b) =~= text_in(a) + text_in(b));
        assert(deeds_in(a + b) =~= deeds_in(a) + deeds_in(b));
    }
}

/// Joining texts neither adds nor loses a character, nor anything else.
pub proof fn law_joining_keeps_the_contents(parts: Seq<PartModel>)
    ensures
        text_in(joined_texts(parts)) == text_in(parts),
        deeds_in(joined_texts(parts)) == deeds_in(parts),
    decreases parts.len(),
{
    if parts.len() > 0 {
        law_joining_keeps_the_contents(parts.drop_last());
        let before = joined_texts(parts.drop_last());
        let after = with_part(before, parts.last());
        match parts.last() {
            PartModel::Text(b) => if before.len() > 0 && before.last() is Text {
                let a = before.last()->Text_0;
                assert(after.drop_last() =~= before.drop_last());
                assert(text_in(after) =~= text_in(before) + b);
            } else {
                assert(after.drop_last() =~= before);
            },
            _ => {
                assert(after.drop_last() =~= before);
            },
        }
    }
}

proof fn lemma_without_tools(parts: Seq<PartModel>)
    ensures
        text_in(without_tools(parts)) == text_in(parts),
        deeds_in(without_tools(parts)) == without_tools(deeds_in(parts)),
        (without_tools(parts).len() == 0) == (forall|i: int| 0 <= i < parts.len() ==> (#[trigger] parts[i]) is Tool),
        (forall|i: int| 0 <= i < parts.len() ==> !((#[trigger] parts[i]) is Tool)) ==> without_tools(parts) == parts,
    decreases parts.len(),
{
    if parts.len() > 0 {
        let front = parts.drop_last();
        lemma_without_tools(front);
        assert forall|i: int| 0 <= i < front.len() implies #[trigger] front[i] == parts[i] by {}
        assert(parts.last() == parts[parts.len() - 1]);
        if parts.last() is Tool {
            assert(deeds_in(parts).drop_last() =~= deeds_in(front));
            if without_tools(parts).len() == 0 {
                assert forall|i: int| 0 <= i < parts.len() implies (#[trigger] parts[i]) is Tool by {
                    if i < front.len() {
                        assert(front[i] is Tool);
                    }
                }
            } else {
                let k = choose|k: int| 0 <= k < front.len() && !((#[trigger] front[k]) is Tool);
                assert(!(parts[k] is Tool));
            }
        } else {
            assert(without_tools(parts).drop_last() =~= without_tools(front));
            if !(parts.last() is Text) {
                assert(deeds_in(parts).drop_last() =~= deeds_in(front));
            }
            if forall|i: int| 0 <= i < parts.len() ==> !((#[trigger] parts[i]) is Tool) {
                assert forall|i: int| 0 <= i < front.len() implies !((#[trigger] front[i]) is Tool) by {
                    assert(!(parts[i] is Tool));
                }
                assert(front.push(parts.last()) =~= parts);
            }
        }
    }
}

/// A closed tool call is the same call: it has ended, and nothing that it
/// returned is lost. One that had ended is left as it is.
pub proof fn law_closing_keeps_the_call(t: ToolModel)
    ensures
        closed_tool(t).status == ToolStatus::Completed || closed_tool(t).status == ToolStatus::Failed || closed_tool(
            t,
        ).status == ToolStatus::Cancelled,
        closed_tool(t).id == t.id,
        closed_tool(t).kind == t.kind,
        closed_tool(t).input == t.input,
        closed_tool(t).display == t.display,
        closed_tool(t).elapsed_ms == t.elapsed_ms,
        closed_tool(t).started_at == t.started_at,
        closed_tool(t).thought_signature == t.thought_signature,
        !(t.output is Empty) ==> closed_tool(t).output == t.output,
        t.status == ToolStatus::Completed || t.status == ToolStatus::Failed || t.status == ToolStatus::Cancelled
            ==> closed_tool(t) == t,
        t.status == ToolStatus::Pending || t.status == ToolStatus::Running || t.status == ToolStatus::Idle
            ==> closed_tool(t).status == ToolStatus::Failed && !(closed_tool(t).output is Empty),
{
}

proof fn lemma_closed_contents(parts: Seq<PartModel>)
    ensures
        text_in(closed_parts(parts)) == text_in(parts),
        deeds_in(closed_parts(parts)) == closed_parts(deeds_in(parts)),
    decreases parts.len(),
{
    if parts.len() > 0 {
        lemma_closed_contents(parts.drop_last());
        assert(closed_parts(parts).drop_last() =~= closed_parts(parts.drop_last()));
        assert(closed_parts(parts).last() == closed_part(parts.last()));
        if !(parts.last() is Text) {
            assert(closed_parts(deeds_in(parts)) =~= closed_parts(deeds_in(parts.drop_last())).push(
                closed_part(parts.last()),
            ));
        }
    } else {
        assert(closed_parts(parts) =~= parts);
        assert(closed_parts(deeds_in(parts)) =~= deeds_in(parts));
    }
}

// ── a whole transcript ──────────────────────────────────────────────────

proof fn lemma_coalesced_contents(role: Role, msgs: Seq<MessageModel>)
    ensures
        said(role, coalesced(msgs)) == said(role, msgs),
        done(role, coalesced(msgs)) == done(role, msgs),
        attached(role, coalesced(msgs)) == attached(role, msgs),
    decreases msgs.len(),
{
    if msgs.len() > 0 {
        lemma_coalesced_contents(role, msgs.drop_last());
        let before = coalesced(msgs.drop_last());
        let m = msgs.last();
        let after = with_message(before, m);
        if before.len() > 0 && continues(before.last(), m) {
            let a = before.last();
            assert(after.drop_last() =~= before.drop_last());
            assert(after.last() == merged(a, m));
            lemma_contents_add(a.parts, m.parts);
            law_joining_keeps_the_contents(a.parts + m.parts);
            assert(said(role, after) =~= said(role, msgs));
            assert(done(role, after) =~= done(role, msgs));
            assert(attached(role, after) =~= attached(role, msgs));
        } else {
            assert(after.drop_last() =~= before);
        }
    }
}

/// Merging turns loses nothing that either side said, did or attached.
pub proof fn law_merging_turns_loses_nothing(role: Role, msgs: Seq<MessageModel>)
    ensures
        said(role, coalesced(msgs)) == said(role, msgs),
        done(role, coalesced(msgs)) == done(role, msgs),
        attached(role, coalesced(msgs)) == attached(role, msgs),
{
    lemma_coalesced_contents(role, msgs);
}

proof fn lemma_closed_transcript(role: Role, msgs: Seq<MessageModel>)
    ensures
        ({
            let after = terminalized(msgs, TerminalizeTail::Include).map_values(|m: MessageModel| with_joined_texts(m));
            &&& said(role, after) == said(role, msgs)
            &&& done(role, after) == closed_parts(done(role, msgs))
            &&& attached(role, after) == attached(role, msgs)
        }),
    decreases msgs.len(),
{
    let joined = |m: MessageModel| with_joined_texts(m);
    let after = terminalized(msgs, TerminalizeTail::Include).map_values(joined);
    if msgs.len() == 0 {
        assert(after =~= msgs);
        assert(closed_parts(done(role, msgs)) =~= done(role, msgs));
    } else {
        let front = msgs.drop_last();
        lemma_closed_transcript(role, front);
        assert(after.drop_last() =~= terminalized(front, TerminalizeTail::Include).map_values(joined));
        let m = msgs.last();
        assert(after.last() == with_joined_texts(closed_message(m)));
        lemma_closed_contents(m.parts);
        law_joining_keeps_the_contents(closed_parts(m.parts));
        assert(closed_parts(done(role, msgs)) =~= done(role, after));
    }
}

proof fn lemma_kept_contents(role: Role, msgs: Seq<MessageModel>)
    ensures
        ({
            let kept = stripped_of_orphans(without_placeholders(msgs));
            &&& said(role, kept) == said(role, worth_keeping(msgs))
            &&& attached(role, kept) == attached(role, worth_keeping(msgs))
            &&& role == Role::Assistant ==> done(role, kept) == done(role, worth_keeping(msgs))
            &&& role == Role::User ==> done(role, kept) == without_tools(done(role, worth_keeping(msgs)))
        }),
    decreases msgs.len(),
{
    let kept = stripped_of_orphans(without_placeholders(msgs));
    if msgs.len() == 0 {
        assert(without_tools(done(role, worth_keeping(msgs))) =~= done(role, kept));
    } else {
        let front = msgs.drop_last();
        let m = msgs.last();
        lemma_kept_contents(role, front);
        lemma_placeholder_says_nothing(m);
        lemma_without_tools(m.parts);
        let before = stripped_of_orphans(without_placeholders(front));
        if !is_placeholder(m) {
            assert(without_placeholders(msgs).drop_last() =~= without_placeholders(front));
            assert(without_placeholders(msgs).last() == m);
            let n = without_orphans(m);
            if n.role == Role::User && n.parts.len() == 0 {
                assert(holds_only_tools(m));
            } else {
                assert(!holds_only_tools(m));
                assert(kept.drop_last() =~= before);
                assert(kept.last() == n);
                assert(worth_keeping(msgs).drop_last() =~= worth_keeping(front));
                lemma_without_tools_adds(done(role, worth_keeping(front)), deeds_in(m.parts));
            }
        }
    }
}

proof fn lemma_without_tools_adds(a: Seq<PartModel>, b: Seq<PartModel>)
    ensures
        without_tools(a + b) == without_tools(a) + without_tools(b),
    decreases b.len(),
{
    if b.len() == 0 {
        assert(a + b =~= a);
        assert(without_tools(a) + without_tools(b) =~= without_tools(a));
    } else {
        lemma_without_tools_adds(a, b.drop_last());
        assert((a + b).drop_last() =~= a + b.drop_last());
        assert((a + b).last() == b.last());
        assert(without_tools(a + b) =~= without_tools(a) + without_tools(b));
    }
}

/// Mending loses nothing but messages that say nothing and tool calls on the
/// user's side: of the messages worth keeping, what each side said and attached
/// is there in order, and every tool call of the assistant, closed.
pub proof fn law_mending_loses_nothing(role: Role, msgs: Seq<MessageModel>)
    ensures
        said(role, repaired(msgs)) == said(role, worth_keeping(msgs)),
        attached(role, repaired(msgs)) == attached(role, worth_keeping(msgs)),
        done(role, repaired(msgs)).len() == (if role == Role::User {
            without_tools(done(role, worth_keeping(msgs)))
        } else {
            done(role, worth_keeping(msgs))
        }).len(),
        role == Role::Assistant ==> forall|i: int|
            0 <= i < done(role, repaired(msgs)).len() ==> #[trigger] done(role, repaired(msgs))[i] == closed_part(
                done(role, worth_keeping(msgs))[i],
            ),
{
    let turns = stripped_of_orphans(without_placeholders(msgs));
    lemma_kept_contents(role, msgs);
    lemma_coalesced_contents(role, turns);
    lemma_closed_transcript(role, coalesced(turns));
}

/// Only what carries nothing is left out: a message with an attachment that is not
/// made of stray tool calls is worth keeping.
pub proof fn law_attachments_are_worth_keeping(m: MessageModel)
    requires
        m.attachments.len() > 0,
        m.role == Role::User ==> exists|i: int| 0 <= i < m.parts.len() && !((#[trigger] m.parts[i]) is Tool),
    ensures
        worth_keeping(seq![m]) == seq![m],
        attached(m.role, repaired(seq![m])) == m.attachments,
{
    reveal_with_fuel(worth_keeping, 2);
    reveal_with_fuel(attached, 2);
    assert(seq![m].drop_last() =~= Seq::empty());
    assert(worth_keeping(seq![m]) =~= seq![m]);
    law_mending_loses_nothing(m.role, seq![m]);
    assert(attached(m.role, seq![m]) =~= m.attachments);
}

/// A message that needs no mending: it says something, its tool calls have ended
/// and stand on the side of the assistant, and its texts are whole.
pub open spec fn needs_no_mending(m: MessageModel) -> bool {
    &&& !says_nothing(m)
    &&& m.role == Role::User ==> m.parts.len() > 0
    &&& forall|i: int|
        0 <= i < m.parts.len() && (#[trigger] m.parts[i]) is Tool ==> m.role == Role::Assistant
            && (m.parts[i]->Tool_0.status == ToolStatus::Completed || m.parts[i]->Tool_0.status == ToolStatus::Failed
            || m.parts[i]->Tool_0.status == ToolStatus::Cancelled)
    &&& forall|i: int| 0 < i < m.parts.len() ==> !(m.parts[i - 1] is Text && (#[trigger] m.parts[i]) is Text)
}

/// The second message could not be part of the first one's turn.
pub open spec fn stand_apart(a: MessageModel, b: MessageModel) -> bool {
    a.role != b.role || a.queued || b.queued || is_boundary(a) || is_boundary(b)
}

proof fn lemma_whole_texts_stay(parts: Seq<PartModel>)
    requires
        forall|i: int| 0 < i < parts.len() ==> !(parts[i - 1] is Text && (#[trigger] parts[i]) is Text),
    ensures
        joined_texts(parts) == parts,
    decreases parts.len(),
{
    if parts.len() > 0 {
        let front = parts.drop_last();
        assert forall|i: int| 0 < i < front.len() implies !(front[i - 1] is Text && (#[trigger] front[i]) is Text) by {
            assert(!(parts[i - 1] is Text && parts[i] is Text));
        }
        lemma_whole_texts_stay(front);
        if front.len() > 0 {
            assert(!(parts[parts.len() - 2] is Text && parts[parts.len() - 1] is Text));
        }
        assert(front.push(parts.last()) =~= parts);
    }
}

proof fn lemma_ended_calls_stay(m: MessageModel)
    requires
        needs_no_mending(m),
    ensures
        closed_parts(m.parts) == m.parts,
{
    assert forall|i: int| 0 <= i < m.parts.len() implies #[trigger] closed_parts(m.parts)[i] == m.parts[i] by {
        if m.parts[i] is Tool {
            law_closing_keeps_the_call(m.parts[i]->Tool_0);
        }
    }
    assert(closed_parts(m.parts) =~= m.parts);
}

proof fn lemma_users_call_nothing(m: MessageModel)
    requires
        needs_no_mending(m),
        m.role == Role::User,
    ensures
        without_tools(m.parts) == m.parts,
{
    assert forall|i: int| 0 <= i < m.parts.len() implies !((#[trigger] m.parts[i]) is Tool) by {}
    lemma_without_tools(m.parts);
}

proof fn lemma_sound_message_stays(m: MessageModel)
    requires
        needs_no_mending(m),
    ensures
        !is_placeholder(m),
        without_orphans(m) == m,
        !(m.role == Role::User && m.parts.len() == 0),
        closed_message(m) == m,
        with_joined_texts(m) == m,
{
    lemma_placeholder_says_nothing(m);
    lemma_whole_texts_stay(m.parts);
    lemma_ended_calls_stay(m);
    if m.role == Role::User {
        lemma_users_call_nothing(m);
    }
}

proof fn lemma_sound_messages_stay(msgs: Seq<MessageModel>)
    requires
        forall|i: int| 0 <= i < msgs.len() ==> needs_no_mending(#[trigger] msgs[i]),
    ensures
        without_placeholders(msgs) == msgs,
        stripped_of_orphans(msgs) == msgs,
    decreases msgs.len(),
{
    if msgs.len() > 0 {
        let front = msgs.drop_last();
        assert forall|i: int| 0 <= i < front.len() implies needs_no_mending(#[trigger] front[i]) by {
            assert(needs_no_mending(msgs[i]));
        }
        lemma_sound_messages_stay(front);
        assert(needs_no_mending(msgs[msgs.len() - 1]));
        lemma_sound_message_stays(msgs.last());
        assert(front.push(msgs.last()) =~= msgs);
    }
}

proof fn lemma_apart_stays(msgs: Seq<MessageModel>)
    requires
        forall|i: int| 0 < i < msgs.len() ==> stand_apart(msgs[i - 1], #[trigger] msgs[i]),
    ensures
        coalesced(msgs) == msgs,
    decreases msgs.len(),
{
    if msgs.len() > 0 {
        let front = msgs.drop_last();
        assert forall|i: int| 0 < i < front.len() implies stand_apart(front[i - 1], #[trigger] front[i]) by {
            assert(stand_apart(msgs[i - 1], msgs[i]));
        }
        lemma_apart_stays(front);
        if front.len() > 0 {
            assert(stand_apart(msgs[msgs.len() - 2], msgs[msgs.len() - 1]));
        }
        assert(front.push(msgs.last()) =~= msgs);
    }
}

/// A transcript in which nothing is amiss is left exactly as it is.
pub proof fn law_mending_leaves_a_sound_transcript_alone(msgs: Seq<MessageModel>)
    requires
        forall|i: int| 0 <= i < msgs.len() ==> needs_no_mending(#[trigger] msgs[i]),
        forall|i: int| 0 < i < msgs.len() ==> stand_apart(msgs[i - 1], #[trigger] msgs[i]),
    ensures
        repaired(msgs) == msgs,
{
    lemma_sound_messages_stay(msgs);
    lemma_apart_stays(msgs);
    let closed = terminalized(msgs, TerminalizeTail::Include);
    let joined = |m: MessageModel| with_joined_texts(m);
    assert forall|i: int| 0 <= i < msgs.len() implies #[trigger] closed.map_values(joined)[i] == msgs[i] by {
        assert(needs_no_mending(msgs[i]));
        lemma_sound_message_stays(msgs[i]);
    }
    assert(closed.map_values(joined) =~= msgs);
}

// ── saving ──────────────────────────────────────────────────────────────

proof fn lemma_preserved_contents(role: Role, msgs: Seq<MessageModel>, n: nat)
    requires
        n <= msgs.len(),
    ensures
        said(role, terminalized(msgs, TerminalizeTail::Preserve).take(n as int)) == said(role, msgs.take(n as int)),
        attached(role, terminalized(msgs, TerminalizeTail::Preserve).take(n as int)) == attached(
            role,
            msgs.take(n as int),
        ),
        done(role, terminalized(msgs, TerminalizeTail::Preserve).take(n as int)).len() == done(
            role,
            msgs.take(n as int),
        ).len(),
        forall|i: int|
            0 <= i < done(role, msgs.take(n as int)).len() ==> {
                let d = #[trigger] done(role, terminalized(msgs, TerminalizeTail::Preserve).take(n as int))[i];
                d == closed_part(done(role, msgs.take(n as int))[i]) || d == done(role, msgs.take(n as int))[i]
            },
    decreases n,
{
    let after = terminalized(msgs, TerminalizeTail::Preserve);
    if n > 0 {
        lemma_preserved_contents(role, msgs, (n - 1) as nat);
        assert(after.take(n as int).drop_last() =~= after.take(n - 1));
        assert(msgs.take(n as int).drop_last() =~= msgs.take(n - 1));
        let m = msgs[n - 1];
        lemma_closed_contents(m.parts);
        let (x, y) = (done(role, after.take(n as int)), done(role, msgs.take(n as int)));
        let (p, q) = (done(role, after.take(n - 1)), done(role, msgs.take(n - 1)));
        assert forall|i: int| 0 <= i < y.len() implies {
            let d = #[trigger] x[i];
            d == closed_part(y[i]) || d == y[i]
        } by {
            if i < p.len() {
                assert(p[i] == closed_part(q[i]) || p[i] == q[i]);
                assert(x[i] == p[i]);
                assert(y[i] == q[i]);
            } else if m.role == role {
                assert(y[i] == deeds_in(m.parts)[i - q.len()]);
                assert(x[i] == deeds_in(after[n - 1].parts)[i - p.len()]);
            }
        }
    }
}

proof fn lemma_saved_is_worth_saving(msgs: Seq<MessageModel>)
    ensures
        saved_messages(msgs) == worth_saving(msgs),
    decreases msgs.len(),
{
    if msgs.len() > 0 {
        lemma_saved_is_worth_saving(msgs.drop_last());
        lemma_placeholder_says_nothing(msgs.last());
    }
}

/// Saving loses nothing that was sent: of the messages worth saving, what each side
/// said and attached is there in order, and everything else too, where a tool call
/// that had not reported back may be closed.
pub proof fn law_saving_loses_nothing(role: Role, msgs: Seq<MessageModel>)
    ensures
        said(role, persistent(msgs)) == said(role, worth_saving(msgs)),
        attached(role, persistent(msgs)) == attached(role, worth_saving(msgs)),
        done(role, persistent(msgs)).len() == done(role, worth_saving(msgs)).len(),
        forall|i: int|
            0 <= i < done(role, worth_saving(msgs)).len() ==> {
                let d = #[trigger] done(role, persistent(msgs))[i];
                d == closed_part(done(role, worth_saving(msgs))[i]) || d == done(role, worth_saving(msgs))[i]
            },
{
    lemma_saved_is_worth_saving(msgs);
    let kept = saved_messages(msgs);
    let closed = terminalized(kept, TerminalizeTail::Preserve);
    lemma_coalesced_contents(role, closed);
    lemma_preserved_contents(role, kept, kept.len());
    assert(kept.take(kept.len() as int) =~= kept);
    assert(closed.take(kept.len() as int) =~= closed);
}

/// A transcript in which nothing is amiss goes to disk exactly as it is.
pub proof fn law_saving_leaves_a_sound_transcript_alone(msgs: Seq<MessageModel>)
    requires
        forall|i: int| 0 <= i < msgs.len() ==> needs_no_mending(#[trigger] msgs[i]) && !msgs[i].queued,
        forall|i: int| 0 < i < msgs.len() ==> stand_apart(msgs[i - 1], #[trigger] msgs[i]),
    ensures
        persistent(msgs) == msgs,
{
    lemma_all_worth_saving(msgs);
    lemma_saved_is_worth_saving(msgs);
    let closed = terminalized(msgs, TerminalizeTail::Preserve);
    assert forall|i: int| 0 <= i < msgs.len() implies #[trigger] closed[i] == msgs[i] by {
        assert(needs_no_mending(msgs[i]));
        lemma_sound_message_stays(msgs[i]);
    }
    assert(closed =~= msgs);
    lemma_apart_stays(msgs);
}

proof fn lemma_all_worth_saving(msgs: Seq<MessageModel>)
    requires
        forall|i: int| 0 <= i < msgs.len() ==> needs_no_mending(#[trigger] msgs[i]) && !msgs[i].queued,
    ensures
        worth_saving(msgs) == msgs,
    decreases msgs.len(),
{
    if msgs.len() > 0 {
        let front = msgs.drop_last();
        assert forall|i: int| 0 <= i < front.len() implies needs_no_mending(#[trigger] front[i]) && !front[i].queued by {
            assert(needs_no_mending(msgs[i]));
        }
        lemma_all_worth_saving(front);
        assert(needs_no_mending(msgs[msgs.len() - 1]));
        assert(front.push(msgs.last()) =~= msgs);
    }
}

/// What is known of a message of several pieces: the first one's side and state,
/// the attachments of both, and of everything else what was known last.
pub proof fn law_merged_messages_know_the_latest(a: MessageModel, b: MessageModel)
    ensures
        merged(a, b).role == a.role,
        merged(a, b).queued == a.queued,
        merged(a, b).attachments == a.attachments + b.attachments,
        b.usage is Some ==> merged(a, b).usage == b.usage,
        b.usage is None ==> merged(a, b).usage == a.usage,
        b.model_name is Some ==> merged(a, b).model_name == b.model_name,
        b.model_name is None ==> merged(a, b).model_name == a.model_name,
        b.agent_name is Some ==> merged(a, b).agent_name == b.agent_name,
        b.agent_name is None ==> merged(a, b).agent_name == a.agent_name,
        b.cost_tier is Some ==> merged(a, b).cost_tier == b.cost_tier,
        b.cost_tier is None ==> merged(a, b).cost_tier == a.cost_tier,
        b.elapsed is Some ==> merged(a, b).elapsed == b.elapsed,
        b.elapsed is None ==> merged(a, b).elapsed == a.elapsed,
{
}

} // verus!
