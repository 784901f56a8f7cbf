//! What a valid transcript looks like, and that saved and mended transcripts
//! are valid.
use vstd::prelude::*;

use crate::compaction::{
    any_content, closed_part, closed_parts, coalesced, continues, has_content, is_placeholder,
    joined_texts, merged, persistent, repaired, saved_messages, stripped_of_orphans, terminalized,
    with_joined_texts, with_message, with_part, without_placeholders, without_tools,
    TerminalizeTail,
};
use crate::compaction::is_empty_assistant_placeholder;
use crate::slicing::{lemma_trimmed_is_empty, trimmed};
use crate::text::is_space;
use crate::transcript::{
    group_models, is_boundary, message_model, message_models, part_model, part_models, ChatMessage,
    MessageModel, MessagePart, PartModel, Role,
};

verus! {

broadcast use group_models;

/// What can be wrong with a message of a transcript.
#[derive(Debug, Clone, Copy, PartialEq, Eq, Structural)]
pub enum TurnFault {
    /// The user speaks twice in a row.
    ConsecutiveUser,
    /// The assistant speaks twice in a row.
    ConsecutiveAssistant,
    /// A message of the user carries a tool call.
    OrphanToolResult,
    /// A message holds nothing.
    EmptyMessage,
}

/// A fault and the message that has it.
#[derive(Debug, Clone, Copy, PartialEq, Eq, Structural)]
pub struct TurnViolation {
    pub fault: TurnFault,
    pub index: usize,
}

/// Some part is a tool call.
pub open spec fn any_tool(parts: Seq<PartModel>) -> bool {
    exists|i: int| 0 <= i < parts.len() && (#[trigger] parts[i]) is Tool
}

/// What is wrong with a message on its own. A queued message is not part of the
/// conversation yet.
pub open spec fn message_fault(m: MessageModel) -> Option<TurnFault> {
    if m.queued {
        None
    } else if m.role == Role::User && any_tool(m.parts) {
        Some(TurnFault::OrphanToolResult)
    } else if is_placeholder(m) || (m.role == Role::User && m.parts.len() == 0) {
        Some(TurnFault::EmptyMessage)
    } else {
        None
    }
}

/// What is wrong with the message at `i`.
pub open spec fn fault_at(msgs: Seq<MessageModel>, i: int) -> Option<TurnFault> {
    if i > 0 && continues(msgs[i - 1], msgs[i]) {
        Some(
            if msgs[i].role == Role::User {
                TurnFault::ConsecutiveUser
            } else {
                TurnFault::ConsecutiveAssistant
            },
        )
    } else {
        message_fault(msgs[i])
    }
}

/// No message has a fault: the speakers take turns, no message holds nothing,
/// and tool calls belong to the assistant.
pub open spec fn turns_hold(msgs: Seq<MessageModel>) -> bool {
    forall|i: int| 0 <= i < msgs.len() ==> #[trigger] fault_at(msgs, i) is None
}

fn holds_tool(parts: &Vec<MessagePart>) -> (r: bool)
    ensures
        r == any_tool(part_models(parts@)),
{
    let ghost all = part_models(parts@);
    let mut i: usize = 0;
    while i < parts.len()
        invariant
            i <= parts@.len(),
            all == part_models(parts@),
            forall|j: int| 0 <= j < i ==> !((#[trigger] all[j]) is Tool),
        decreases parts@.len() - i,
    {
        assert(all[i as int] == part_model(parts@[i as int]));
        if let MessagePart::Tool(_) = &parts[i] {
            return true;
        }
        i += 1;
    }
    false
}

fn find_fault(messages: &[ChatMessage], i: usize) -> (r: Option<TurnFault>)
    requires
        i < messages@.len(),
    ensures
        r == fault_at(message_models(messages@), i as int),
{
    let ghost all = message_models(messages@);
    let m = &messages[i];
    assert(all[i as int] == message_model(*m));
    if i > 0 {
        let p = &messages[i - 1];
        assert(all[i - 1] == message_model(*p));
        if p.role == m.role && !p.is_compact_boundary() && !m.is_compact_boundary() && !p.queued && !m.queued {
            return Some(
                if m.role == Role::User {
                    TurnFault::ConsecutiveUser
                } else {
                    TurnFault::ConsecutiveAssistant
                },
            );
        }
    }
    if m.queued {
        None
    } else if m.role == Role::User && holds_tool(&m.parts) {
        Some(TurnFault::OrphanToolResult)
    } else if is_empty_assistant_placeholder(m) || (m.role == Role::User && m.parts.len() == 0) {
        Some(TurnFault::EmptyMessage)
    } else {
        None
    }
}

/// Find the first message that has a fault.
pub fn validate_turn_invariants(messages: &[ChatMessage]) -> (r: Result<(), TurnViolation>)
    ensures
        r is Ok <==> turns_hold(message_models(messages@)),
        r matches Err(v) ==> {
            &&& v.index < messages@.len()
            &&& fault_at(message_models(messages@), v.index as int) == Some(v.fault)
            &&& forall|j: int|
                0 <= j < v.index ==> #[trigger] fault_at(message_models(messages@), j) is None
        },
{
    let mut i: usize = 0;
    while i < messages.len()
        invariant
            i <= messages@.len(),
            forall|j: int| 0 <= j < i ==> #[trigger] fault_at(message_models(messages@), j) is None,
        decreases messages@.len() - i,
    {
        match find_fault(messages, i) {
            Some(fault) => {
                assert(!turns_hold(message_models(messages@)));
                return Err(TurnViolation { fault, index: i });
            },
            None => {},
        }
        i += 1;
    }
    Ok(())
}

// ── joining texts keeps what a message is ───────────────────────────────

proof fn lemma_with_part(parts: Seq<PartModel>, p: PartModel)
    ensures
        with_part(parts, p).len() > 0,
        any_tool(with_part(parts, p)) <==> any_tool(parts) || p is Tool,
        is_marked(with_part(parts, p)) <==> is_marked(parts) || p is CompactBoundary,
        any_content(parts) || has_content(p) ==> any_content(with_part(parts, p)),
{
    let out = with_part(parts, p);
    let joins = p is Text && parts.len() > 0 && parts.last() is Text;
    if joins {
        let a = parts.last()->Text_0;
        let b = p->Text_0;
        let n = parts.len() - 1;
        assert(out[n] == PartModel::Text(a + b));
        lemma_trimmed_is_empty(a);
        lemma_trimmed_is_empty(b);
        lemma_trimmed_is_empty(a + b);
        if trimmed(a).len() > 0 {
            let i = choose|i: int| 0 <= i < a.len() && !is_space(#[trigger] a[i]);
            assert((a + b)[i] == a[i]);
            assert(has_content(out[n]));
        }
        if trimmed(b).len() > 0 {
            let i = choose|i: int| 0 <= i < b.len() && !is_space(#[trigger] b[i]);
            assert((a + b)[a.len() + i] == b[i]);
            assert(has_content(out[n]));
        }
        if any_content(parts) {
            let i = choose|i: int| 0 <= i < parts.len() && has_content(#[trigger] parts[i]);
            if i < n {
                assert(out[i] == parts[i]);
            }
        }
        if any_tool(parts) {
            let i = choose|i: int| 0 <= i < parts.len() && (#[trigger] parts[i]) is Tool;
            assert(out[i] == parts[i]);
        }
        if any_tool(out) {
            let i = choose|i: int| 0 <= i < out.len() && (#[trigger] out[i]) is Tool;
            assert(out[i] == parts[i]);
        }
        if is_marked(parts) {
            let i = choose|i: int| 0 <= i < parts.len() && (#[trigger] parts[i]) is CompactBoundary;
            assert(out[i] == parts[i]);
        }
        if is_marked(out) {
            let i = choose|i: int| 0 <= i < out.len() && (#[trigger] out[i]) is CompactBoundary;
            assert(out[i] == parts[i]);
        }
    } else {
        assert(out == parts.push(p));
        assert(out[parts.len() as int] == p);
        if any_content(parts) {
            let i = choose|i: int| 0 <= i < parts.len() && has_content(#[trigger] parts[i]);
            assert(out[i] == parts[i]);
        }
        if any_tool(parts) {
            let i = choose|i: int| 0 <= i < parts.len() && (#[trigger] parts[i]) is Tool;
            assert(out[i] == parts[i]);
        }
        if any_tool(out) {
            let i = choose|i: int| 0 <= i < out.len() && (#[trigger] out[i]) is Tool;
            if i < parts.len() {
                assert(out[i] == parts[i]);
            }
        }
        if is_marked(parts) {
            let i = choose|i: int| 0 <= i < parts.len() && (#[trigger] parts[i]) is CompactBoundary;
            assert(out[i] == parts[i]);
        }
        if is_marked(out) {
            let i = choose|i: int| 0 <= i < out.len() && (#[trigger] out[i]) is CompactBoundary;
            if i < parts.len() {
                assert(out[i] == parts[i]);
            }
        }
    }
}

/// Some part is the mark left by a compaction.
spec fn is_marked(parts: Seq<PartModel>) -> bool {
    exists|i: int| 0 <= i < parts.len() && (#[trigger] parts[i]) is CompactBoundary
}

proof fn lemma_joined_texts(parts: Seq<PartModel>)
    ensures
        parts.len() > 0 ==> joined_texts(parts).len() > 0,
        any_tool(joined_texts(parts)) <==> any_tool(parts),
        is_marked(joined_texts(parts)) <==> is_marked(parts),
        any_content(parts) ==> any_content(joined_texts(parts)),
    decreases parts.len(),
{
    if parts.len() > 0 {
        let front = parts.drop_last();
        lemma_joined_texts(front);
        lemma_with_part(joined_texts(front), parts.last());
        assert(parts =~= front.push(parts.last()));
        lemma_pushed(front, parts.last());
    }
}

proof fn lemma_pushed(front: Seq<PartModel>, p: PartModel)
    ensures
        any_tool(front.push(p)) <==> any_tool(front) || p is Tool,
        is_marked(front.push(p)) <==> is_marked(front) || p is CompactBoundary,
        any_content(front.push(p)) <==> any_content(front) || has_content(p),
{
    let all = front.push(p);
    assert(all[front.len() as int] == p);
    assert forall|i: int| 0 <= i < front.len() implies #[trigger] all[i] == front[i] by {}
    if any_tool(front) {
        let i = choose|i: int| 0 <= i < front.len() && (#[trigger] front[i]) is Tool;
        assert(all[i] is Tool);
    }
    if is_marked(front) {
        let i = choose|i: int| 0 <= i < front.len() && (#[trigger] front[i]) is CompactBoundary;
        assert(all[i] is CompactBoundary);
    }
    if any_content(front) {
        let i = choose|i: int| 0 <= i < front.len() && has_content(#[trigger] front[i]);
        assert(has_content(all[i]));
    }
}

proof fn lemma_appended(a: Seq<PartModel>, b: Seq<PartModel>)
    ensures
        any_tool(a + b) <==> any_tool(a) || any_tool(b),
        is_marked(a + b) <==> is_marked(a) || is_marked(b),
        any_content(a + b) <==> any_content(a) || any_content(b),
    decreases b.len(),
{
    if b.len() == 0 {
        assert(a + b =~= a);
    } else {
        let front = b.drop_last();
        lemma_appended(a, front);
        assert(a + b =~= (a + front).push(b.last()));
        assert(b =~= front.push(b.last()));
        lemma_pushed(a + front, b.last());
        lemma_pushed(front, b.last());
    }
}

// ── merging turns ───────────────────────────────────────────────────────

/// The message has no fault, even if it is queued.
spec fn is_sound(m: MessageModel) -> bool {
    !is_placeholder(m) && (m.role == Role::User ==> m.parts.len() > 0 && !any_tool(m.parts))
}

/// All messages are sound.
spec fn all_sound(msgs: Seq<MessageModel>) -> bool {
    forall|i: int| 0 <= i < msgs.len() ==> is_sound(#[trigger] msgs[i])
}

/// No message continues the one before.
pub open spec fn turns_alternate(msgs: Seq<MessageModel>) -> bool {
    forall|i: int| 0 < i < msgs.len() ==> !continues(msgs[i - 1], #[trigger] msgs[i])
}

proof fn lemma_merged(a: MessageModel, b: MessageModel)
    requires
        continues(a, b),
    ensures
        merged(a, b).role == a.role,
        !merged(a, b).queued,
        !is_boundary(merged(a, b)),
        is_sound(a) && is_sound(b) ==> is_sound(merged(a, b)),
{
    lemma_joined_texts(a.parts + b.parts);
    lemma_appended(a.parts, b.parts);
    assert(is_boundary(merged(a, b)) == is_marked(merged(a, b).parts));
    assert(is_boundary(a) == is_marked(a.parts));
    assert(is_boundary(b) == is_marked(b.parts));
}

/// Coalescing leaves no two messages of one turn.
pub proof fn law_coalesced_turns_alternate(msgs: Seq<MessageModel>)
    ensures
        turns_alternate(coalesced(msgs)),
    decreases msgs.len(),
{
    if msgs.len() > 0 {
        let m = msgs.last();
        let before = coalesced(msgs.drop_last());
        law_coalesced_turns_alternate(msgs.drop_last());
        let out = with_message(before, m);
        if before.len() > 0 && continues(before.last(), m) {
            lemma_merged(before.last(), m);
            assert forall|i: int| 0 < i < out.len() implies !continues(out[i - 1], #[trigger] out[i]) by {
                assert(out[i - 1] == before[i - 1]);
                assert(!continues(before[i - 1], before[i]));
            }
        } else {
            assert forall|i: int| 0 < i < out.len() implies !continues(out[i - 1], #[trigger] out[i]) by {
                assert(out[i - 1] == before[i - 1]);
                if i < before.len() {
                    assert(!continues(before[i - 1], before[i]));
                }
            }
        }
    }
}

proof fn lemma_coalesced_sound(msgs: Seq<MessageModel>)
    requires
        all_sound(msgs),
    ensures
        all_sound(coalesced(msgs)),
    decreases msgs.len(),
{
    if msgs.len() > 0 {
        let m = msgs.last();
        let front = msgs.drop_last();
        let before = coalesced(front);
        assert forall|i: int| 0 <= i < front.len() implies is_sound(#[trigger] front[i]) by {
            assert(front[i] == msgs[i]);
        }
        lemma_coalesced_sound(front);
        let out = with_message(before, m);
        if before.len() > 0 && continues(before.last(), m) {
            lemma_merged(before.last(), m);
        }
        assert forall|i: int| 0 <= i < out.len() implies is_sound(#[trigger] out[i]) by {
            if i < before.len() {
                assert(is_sound(before[i]));
            }
        }
    }
}

proof fn lemma_alternating_is_kept(msgs: Seq<MessageModel>)
    requires
        turns_alternate(msgs),
    ensures
        coalesced(msgs) == msgs,
    decreases msgs.len(),
{
    if msgs.len() > 0 {
        let front = msgs.drop_last();
        assert forall|i: int| 0 < i < front.len() implies !continues(front[i - 1], #[trigger] front[i]) by {
            assert(front[i] == msgs[i]);
        }
        lemma_alternating_is_kept(front);
        if front.len() > 0 {
            assert(!continues(msgs[msgs.len() - 2], msgs[msgs.len() - 1]));
        }
        assert(front.push(msgs.last()) =~= msgs);
    }
}

/// A transcript in which the speakers take turns is left as it is.
pub proof fn law_alternating_transcript_is_a_fixed_point(msgs: Seq<MessageModel>)
    requires
        turns_alternate(msgs),
    ensures
        coalesced(msgs) == msgs,
{
    lemma_alternating_is_kept(msgs);
}

/// Coalescing twice is coalescing once.
pub proof fn law_coalescing_is_idempotent(msgs: Seq<MessageModel>)
    ensures
        coalesced(coalesced(msgs)) == coalesced(msgs),
{
    law_coalesced_turns_alternate(msgs);
    lemma_alternating_is_kept(coalesced(msgs));
}

// ── closing tools ───────────────────────────────────────────────────────

proof fn lemma_closed_parts(parts: Seq<PartModel>)
    ensures
        closed_parts(parts).len() == parts.len(),
        any_tool(closed_parts(parts)) <==> any_tool(parts),
        is_marked(closed_parts(parts)) <==> is_marked(parts),
        any_content(closed_parts(parts)) <==> any_content(parts),
{
    let out = closed_parts(parts);
    assert forall|i: int| 0 <= i < parts.len() implies #[trigger] out[i] == closed_part(parts[i]) by {}
    if any_tool(parts) {
        let i = choose|i: int| 0 <= i < parts.len() && (#[trigger] parts[i]) is Tool;
        assert(out[i] is Tool);
    }
    if is_marked(parts) {
        let i = choose|i: int| 0 <= i < parts.len() && (#[trigger] parts[i]) is CompactBoundary;
        assert(out[i] is CompactBoundary);
    }
    if any_content(parts) {
        let i = choose|i: int| 0 <= i < parts.len() && has_content(#[trigger] parts[i]);
        assert(has_content(out[i]));
    }
    if any_tool(out) {
        let i = choose|i: int| 0 <= i < out.len() && (#[trigger] out[i]) is Tool;
        assert(parts[i] is Tool);
    }
    if is_marked(out) {
        let i = choose|i: int| 0 <= i < out.len() && (#[trigger] out[i]) is CompactBoundary;
        assert(parts[i] is CompactBoundary);
    }
    if any_content(out) {
        let i = choose|i: int| 0 <= i < out.len() && has_content(#[trigger] out[i]);
        assert(has_content(parts[i]));
    }
}

proof fn lemma_terminalized(msgs: Seq<MessageModel>, tail: TerminalizeTail)
    ensures
        terminalized(msgs, tail).len() == msgs.len(),
        forall|i: int|
            0 <= i < msgs.len() ==> {
                let t = #[trigger] terminalized(msgs, tail)[i];
                &&& t.role == msgs[i].role
                &&& t.queued == msgs[i].queued
                &&& is_boundary(t) == is_boundary(msgs[i])
                &&& is_sound(t) == is_sound(msgs[i])
            },
{
    let out = terminalized(msgs, tail);
    assert forall|i: int| 0 <= i < msgs.len() implies {
        let t = #[trigger] out[i];
        &&& t.role == msgs[i].role
        &&& t.queued == msgs[i].queued
        &&& is_boundary(t) == is_boundary(msgs[i])
        &&& is_sound(t) == is_sound(msgs[i])
    } by {
        lemma_closed_parts(msgs[i].parts);
        assert(is_boundary(msgs[i]) == is_marked(msgs[i].parts));
        assert(is_boundary(out[i]) == is_marked(out[i].parts));
    }
}

/// A tool call that is still open.
pub open spec fn any_open_tool(parts: Seq<PartModel>) -> bool {
    exists|i: int|
        0 <= i < parts.len() && (#[trigger] parts[i]) is Tool && !parts[i]->Tool_0.status.ended()
}

/// Closing leaves every message but a preserved last one without an open tool call.
pub proof fn law_no_tool_stays_open(msgs: Seq<MessageModel>, tail: TerminalizeTail, i: int)
    requires
        0 <= i < msgs.len(),
        tail == TerminalizeTail::Include || i < msgs.len() - 1,
    ensures
        !any_open_tool(terminalized(msgs, tail)[i].parts),
{
    let out = terminalized(msgs, tail)[i].parts;
    assert forall|k: int| 0 <= k < out.len() && (#[trigger] out[k]) is Tool implies out[k]->Tool_0.status.ended() by {
        assert(out[k] == closed_part(msgs[i].parts[k]));
    }
}

/// The last message keeps its open tool calls when it may still be running.
pub proof fn law_running_tail_is_kept(msgs: Seq<MessageModel>)
    requires
        msgs.len() > 0,
    ensures
        terminalized(msgs, TerminalizeTail::Preserve).last() == msgs.last(),
{
}

// ── saving and loading ──────────────────────────────────────────────────

proof fn lemma_without_tools(parts: Seq<PartModel>)
    ensures
        !any_tool(without_tools(parts)),
    decreases parts.len(),
{
    if parts.len() > 0 {
        lemma_without_tools(parts.drop_last());
        lemma_pushed(without_tools(parts.drop_last()), parts.last());
    }
}

proof fn lemma_without_placeholders(msgs: Seq<MessageModel>)
    ensures
        forall|i: int|
            0 <= i < without_placeholders(msgs).len() ==> !is_placeholder(
                #[trigger] without_placeholders(msgs)[i],
            ),
    decreases msgs.len(),
{
    if msgs.len() > 0 {
        let front = msgs.drop_last();
        lemma_without_placeholders(front);
        let before = without_placeholders(front);
        let out = without_placeholders(msgs);
        assert forall|i: int| 0 <= i < out.len() implies !is_placeholder(#[trigger] out[i]) by {
            if i < before.len() {
                assert(!is_placeholder(before[i]));
            }
        }
    }
}

proof fn lemma_stripped_sound(msgs: Seq<MessageModel>)
    requires
        forall|i: int| 0 <= i < msgs.len() ==> !is_placeholder(#[trigger] msgs[i]),
    ensures
        all_sound(stripped_of_orphans(msgs)),
    decreases msgs.len(),
{
    if msgs.len() > 0 {
        let front = msgs.drop_last();
        assert forall|i: int| 0 <= i < front.len() implies !is_placeholder(#[trigger] front[i]) by {
            assert(front[i] == msgs[i]);
        }
        lemma_stripped_sound(front);
        lemma_without_tools(msgs.last().parts);
        assert(!is_placeholder(msgs[msgs.len() - 1]));
        let out = stripped_of_orphans(msgs);
        let before = stripped_of_orphans(front);
        assert forall|i: int| 0 <= i < out.len() implies is_sound(#[trigger] out[i]) by {
            if i < before.len() {
                assert(is_sound(before[i]));
            }
        }
    }
}

/// A mended transcript is valid, whatever was loaded.
pub proof fn law_repaired_transcript_is_valid(msgs: Seq<MessageModel>)
    ensures
        turns_hold(repaired(msgs)),
{
    let kept = without_placeholders(msgs);
    lemma_without_placeholders(msgs);
    let stripped = stripped_of_orphans(kept);
    lemma_stripped_sound(kept);
    let turns = coalesced(stripped);
    lemma_coalesced_sound(stripped);
    law_coalesced_turns_alternate(stripped);
    let closed = terminalized(turns, TerminalizeTail::Include);
    lemma_terminalized(turns, TerminalizeTail::Include);
    let out = repaired(msgs);
    assert forall|i: int| 0 <= i < out.len() implies {
        &&& (#[trigger] out[i]).role == turns[i].role
        &&& out[i].queued == turns[i].queued
        &&& is_boundary(out[i]) == is_boundary(turns[i])
        &&& is_sound(out[i])
    } by {
        assert(out[i] == with_joined_texts(closed[i]));
        assert(is_sound(turns[i]));
        lemma_joined_texts(closed[i].parts);
        assert(is_boundary(closed[i]) == is_marked(closed[i].parts));
        assert(is_boundary(out[i]) == is_marked(out[i].parts));
    }
    assert forall|i: int| 0 <= i < out.len() implies #[trigger] fault_at(out, i) is None by {
        assert(is_sound(out[i]));
        if i > 0 {
            assert(!continues(turns[i - 1], turns[i]));
            assert(out[i - 1].role == turns[i - 1].role);
        }
    }
}

proof fn lemma_saved(msgs: Seq<MessageModel>)
    requires
        forall|i: int|
            0 <= i < msgs.len() && (#[trigger] msgs[i]).role == Role::User ==> msgs[i].parts.len() > 0 && !any_tool(
                msgs[i].parts,
            ),
    ensures
        all_sound(saved_messages(msgs)),
        forall|i: int| 0 <= i < saved_messages(msgs).len() ==> !(#[trigger] saved_messages(msgs)[i]).queued,
    decreases msgs.len(),
{
    if msgs.len() > 0 {
        let front = msgs.drop_last();
        assert forall|i: int| 0 <= i < front.len() && (#[trigger] front[i]).role == Role::User implies front[i].parts.len()
            > 0 && !any_tool(front[i].parts) by {
            assert(front[i] == msgs[i]);
        }
        lemma_saved(front);
        let out = saved_messages(msgs);
        let before = saved_messages(front);
        assert(msgs.last() == msgs[msgs.len() - 1]);
        assert forall|i: int| 0 <= i < out.len() implies is_sound(#[trigger] out[i]) && !out[i].queued by {
            if i < before.len() {
                assert(is_sound(before[i]));
            }
        }
    }
}

/// A saved transcript is valid where the messages of the user hold something and
/// carry no tool calls. Placeholders of the assistant do not matter.
pub proof fn law_saved_transcript_is_valid(msgs: Seq<MessageModel>)
    requires
        forall|i: int|
            0 <= i < msgs.len() && (#[trigger] msgs[i]).role == Role::User ==> msgs[i].parts.len() > 0 && !any_tool(
                msgs[i].parts,
            ),
    ensures
        turns_hold(persistent(msgs)),
{
    let kept = saved_messages(msgs);
    lemma_saved(msgs);
    let closed = terminalized(kept, TerminalizeTail::Preserve);
    lemma_terminalized(kept, TerminalizeTail::Preserve);
    assert forall|i: int| 0 <= i < closed.len() implies is_sound(#[trigger] closed[i]) by {
        assert(is_sound(kept[i]));
    }
    lemma_coalesced_sound(closed);
    law_coalesced_turns_alternate(closed);
    let out = persistent(msgs);
    assert forall|i: int| 0 <= i < out.len() implies #[trigger] fault_at(out, i) is None by {
        assert(is_sound(out[i]));
        if i > 0 {
            assert(!continues(out[i - 1], out[i]));
        }
    }
}

/// A message that waits in the queue is never at fault. Of the others, a call on the
/// user's side and a message that says nothing are, and those alone.
pub proof fn law_faults_are_found(m: MessageModel)
    ensures
        m.queued ==> message_fault(m) is None,
        !m.queued && m.role == Role::User && any_tool(m.parts) ==> message_fault(m) == Some(
            TurnFault::OrphanToolResult,
        ),
        !m.queued && m.role == Role::User && m.parts.len() == 0 && !any_tool(m.parts) ==> message_fault(m) == Some(
            TurnFault::EmptyMessage,
        ),
        !m.queued && m.role == Role::Assistant && is_placeholder(m) ==> message_fault(m) == Some(
            TurnFault::EmptyMessage,
        ),
        m.role == Role::Assistant && !is_placeholder(m) ==> message_fault(m) is None,
        m.role == Role::User && !any_tool(m.parts) && m.parts.len() > 0 && !is_placeholder(m) ==> message_fault(
            m,
        ) is None,
{
}

/// Two messages of one side in a row are a fault, named after the side.
pub proof fn law_repeated_sides_are_named(msgs: Seq<MessageModel>, i: int)
    requires
        0 < i < msgs.len(),
        continues(msgs[i - 1], msgs[i]),
    ensures
        msgs[i].role == Role::User ==> fault_at(msgs, i) == Some(TurnFault::ConsecutiveUser),
        msgs[i].role == Role::Assistant ==> fault_at(msgs, i) == Some(TurnFault::ConsecutiveAssistant),
{
}

} // verus!
