//! Preparing transcripts for disk and mending them after loading.
//!
//! Consecutive messages of one speaker become one turn, placeholders that hold
//! nothing are dropped, and tools that never reported back are closed.
use vstd::prelude::*;

use crate::bytes_len::{cut_at_bytes, cut_bytes, longer_than_bytes, utf8_size};
use crate::slicing::{opt_text, trim, trimmed};
use crate::text::cat2;
use crate::transcript::{
    extend_attachments, group_models, is_boundary, message_model, message_models, part_model,
    part_models, ChatMessage, MessageModel, MessagePart, OutputModel, PartModel, Role, ToolCall,
    ToolModel, ToolOutput, ToolStatus,
};

verus! {

broadcast use group_models;

// ── the first prompt ────────────────────────────────────────────────────

/// The first text part that is not blank, trimmed.
pub open spec fn first_text(parts: Seq<PartModel>) -> Option<Seq<char>>
    decreases parts.len(),
{
    if parts.len() == 0 {
        None
    } else {
        match parts[0] {
            PartModel::Text(t) => if trimmed(t).len() > 0 {
                Some(trimmed(t))
            } else {
                first_text(parts.skip(1))
            },
            _ => first_text(parts.skip(1)),
        }
    }
}

/// A prompt as it is listed: cut where it takes more than 100 bytes.
pub open spec fn listed_prompt(t: Seq<char>) -> Seq<char> {
    if utf8_size(t) > 100 {
        cut_at_bytes(t, 100) + "…"@
    } else {
        t
    }
}

/// The prompt under which a session is listed: that of the first message of the
/// user whose text is not blank.
pub open spec fn first_prompt(msgs: Seq<MessageModel>) -> Option<Seq<char>>
    decreases msgs.len(),
{
    if msgs.len() == 0 {
        None
    } else {
        match (msgs[0].role, first_text(msgs[0].parts)) {
            (Role::User, Some(t)) => Some(listed_prompt(t)),
            _ => first_prompt(msgs.skip(1)),
        }
    }
}

fn first_text_of(parts: &Vec<MessagePart>) -> (r: Option<String>)
    ensures
        opt_text(r) == first_text(part_models(parts@)),
{
    let ghost all = part_models(parts@);
    let mut i: usize = 0;
    assert(all.skip(0) =~= all);
    while i < parts.len()
        invariant
            i <= parts@.len(),
            all == part_models(parts@),
            first_text(all) == first_text(all.skip(i as int)),
        decreases parts@.len() - i,
    {
        assert(all.skip(i as int)[0] == part_model(parts@[i as int]));
        assert(all.skip(i as int).skip(1) =~= all.skip(i + 1));
        if let MessagePart::Text(t) = &parts[i] {
            let text = trim(t.as_str());
            if !text.as_str().is_empty() {
                return Some(text);
            }
        }
        i += 1;
    }
    None
}

/// Extract the first meaningful user prompt for display in a session list.
pub fn extract_first_prompt(messages: &[ChatMessage]) -> (r: Option<String>)
    ensures
        opt_text(r) == first_prompt(message_models(messages@)),
{
    let ghost all = message_models(messages@);
    let mut i: usize = 0;
    assert(all.skip(0) =~= all);
    while i < messages.len()
        invariant
            i <= messages@.len(),
            all == message_models(messages@),
            first_prompt(all) == first_prompt(all.skip(i as int)),
        decreases messages@.len() - i,
    {
        assert(all.skip(i as int)[0] == message_model(messages@[i as int]));
        assert(all.skip(i as int).skip(1) =~= all.skip(i + 1));
        if messages[i].role == Role::User {
            if let Some(t) = first_text_of(&messages[i].parts) {
                return if longer_than_bytes(t.as_str(), 100) {
                    Some(cat2(cut_bytes(t.as_str(), 100).as_str(), "…"))
                } else {
                    Some(t)
                };
            }
        }
        i += 1;
    }
    None
}

// ── merging turns ───────────────────────────────────────────────────────

/// `parts` with `p` behind them; a text joins the text that it follows.
pub open spec fn with_part(parts: Seq<PartModel>, p: PartModel) -> Seq<PartModel> {
    match p {
        PartModel::Text(b) => if parts.len() > 0 {
            match parts.last() {
                PartModel::Text(a) => parts.drop_last().push(PartModel::Text(a + b)),
                _ => parts.push(p),
            }
        } else {
            parts.push(p)
        },
        _ => parts.push(p),
    }
}

/// `parts` with neighbouring texts joined.
pub open spec fn joined_texts(parts: Seq<PartModel>) -> Seq<PartModel>
    decreases parts.len(),
{
    if parts.len() == 0 {
        parts
    } else {
        with_part(joined_texts(parts.drop_last()), parts.last())
    }
}

/// The later value, where there is one.
pub open spec fn later<A>(before: Option<A>, after: Option<A>) -> Option<A> {
    if after is Some {
        after
    } else {
        before
    }
}

/// Two messages of one speaker as one: parts and attachments of both in order,
/// and of every other field the later value.
pub open spec fn merged(a: MessageModel, b: MessageModel) -> MessageModel {
    MessageModel {
        role: a.role,
        parts: joined_texts(a.parts + b.parts),
        attachments: a.attachments + b.attachments,
        queued: a.queued,
        agent_name: later(a.agent_name, b.agent_name),
        model_name: later(a.model_name, b.model_name),
        cost_tier: later(a.cost_tier, b.cost_tier),
        elapsed: later(a.elapsed, b.elapsed),
        usage: later(a.usage, b.usage),
    }
}

/// The second message continues the turn of the first.
pub open spec fn continues(a: MessageModel, b: MessageModel) -> bool {
    a.role == b.role && !is_boundary(a) && !is_boundary(b) && !a.queued && !b.queued
}

/// `out` with `m` behind it, or merged into its last message.
pub open spec fn with_message(out: Seq<MessageModel>, m: MessageModel) -> Seq<MessageModel> {
    if out.len() > 0 && continues(out.last(), m) {
        out.drop_last().push(merged(out.last(), m))
    } else {
        out.push(m)
    }
}

/// Consecutive messages of one speaker merged into one.
pub open spec fn coalesced(msgs: Seq<MessageModel>) -> Seq<MessageModel>
    decreases msgs.len(),
{
    if msgs.len() == 0 {
        msgs
    } else {
        with_message(coalesced(msgs.drop_last()), msgs.last())
    }
}

fn push_part(out: &mut Vec<MessagePart>, p: MessagePart)
    ensures
        part_models(final(out)@) == with_part(part_models(old(out)@), part_model(p)),
{
    let ghost before = out@;
    let n = out.len();
    match p {
        MessagePart::Text(b) => {
            let joins = n > 0 && matches!(&out[n - 1], MessagePart::Text(_));
            if joins {
                let last = out.pop();
                assert(part_models(out@) =~= part_models(before).drop_last());
                assert(part_models(before).last() == part_model(before.last()));
                if let Some(MessagePart::Text(a)) = last {
                    out.push(MessagePart::Text(cat2(a.as_str(), b.as_str())));
                }
            } else {
                assert(n > 0 ==> part_models(before).last() == part_model(before.last()));
                out.push(MessagePart::Text(b));
            }
        },
        other => {
            out.push(other);
        },
    }
}

fn push_parts(out: &mut Vec<MessagePart>, more: &Vec<MessagePart>, Ghost(before): Ghost<Seq<PartModel>>)
    requires
        part_models(old(out)@) == joined_texts(before),
    ensures
        part_models(final(out)@) == joined_texts(before + part_models(more@)),
{
    let ghost all = part_models(more@);
    let mut i: usize = 0;
    assert(before + all.take(0) =~= before);
    while i < more.len()
        invariant
            i <= more@.len(),
            all == part_models(more@),
            part_models(out@) == joined_texts(before + all.take(i as int)),
        decreases more@.len() - i,
    {
        let copy = more[i].clone();
        assert((before + all.take(i + 1)).drop_last() =~= before + all.take(i as int));
        assert((before + all.take(i + 1)).last() == part_model(copy));
        push_part(out, copy);
        i += 1;
    }
    assert(all.take(i as int) =~= all);
}

/// Join neighbouring text parts.
pub fn merge_consecutive_text_parts(parts: &Vec<MessagePart>) -> (r: Vec<MessagePart>)
    ensures
        part_models(r@) == joined_texts(part_models(parts@)),
{
    let mut out: Vec<MessagePart> = Vec::new();
    assert(part_models(out@) =~= joined_texts(Seq::empty()));
    push_parts(&mut out, parts, Ghost(Seq::empty()));
    assert(Seq::<PartModel>::empty() + part_models(parts@) =~= part_models(parts@));
    out
}

fn later_text(before: Option<String>, after: &Option<String>) -> (r: Option<String>)
    ensures
        r == later(before, *after),
{
    match after {
        Some(t) => Some(t.clone()),
        None => before,
    }
}

fn merge_message(a: ChatMessage, b: &ChatMessage) -> (r: ChatMessage)
    ensures
        message_model(r) == merged(message_model(a), message_model(*b)),
{
    let mut parts: Vec<MessagePart> = Vec::new();
    assert(part_models(parts@) =~= joined_texts(Seq::empty()));
    push_parts(&mut parts, &a.parts, Ghost(Seq::empty()));
    assert(Seq::<PartModel>::empty() + part_models(a.parts@) =~= part_models(a.parts@));
    push_parts(&mut parts, &b.parts, Ghost(part_models(a.parts@)));
    let mut attachments = a.attachments;
    extend_attachments(&mut attachments, &b.attachments);
    ChatMessage {
        role: a.role,
        parts,
        attachments,
        queued: a.queued,
        agent_name: later_text(a.agent_name, &b.agent_name),
        model_name: later_text(a.model_name, &b.model_name),
        cost_tier: later_text(a.cost_tier, &b.cost_tier),
        elapsed: later_text(a.elapsed, &b.elapsed),
        usage: match b.usage {
            Some(u) => Some(u),
            None => a.usage,
        },
    }
}

/// Merge consecutive messages of one speaker into one turn. Messages that are
/// queued or mark a compaction stay on their own.
pub fn coalesce_consecutive_same_role(messages: &[ChatMessage]) -> (r: Vec<ChatMessage>)
    ensures
        message_models(r@) == coalesced(message_models(messages@)),
{
    let ghost all = message_models(messages@);
    let mut out: Vec<ChatMessage> = Vec::new();
    let mut i: usize = 0;
    assert(message_models(out@) =~= coalesced(all.take(0)));
    while i < messages.len()
        invariant
            i <= messages@.len(),
            all == message_models(messages@),
            message_models(out@) == coalesced(all.take(i as int)),
        decreases messages@.len() - i,
    {
        let msg = &messages[i];
        let ghost before = out@;
        assert(all.take(i + 1).drop_last() =~= all.take(i as int));
        assert(all.take(i + 1).last() == message_model(*msg));
        let n = out.len();
        assert(n > 0 ==> message_models(before).last() == message_model(before.last()));
        let can_merge = n > 0 && out[n - 1].role == msg.role && !out[n - 1].is_compact_boundary()
            && !msg.is_compact_boundary() && !out[n - 1].queued && !msg.queued;
        if can_merge {
            let last = out.pop();
            assert(message_models(out@) =~= message_models(before).drop_last());
            if let Some(prev) = last {
                out.push(merge_message(prev, msg));
            }
        } else {
            out.push(msg.clone());
        }
        i += 1;
    }
    assert(all.take(i as int) =~= all);
    out
}

// ── placeholders ────────────────────────────────────────────────────────

/// The part holds something worth keeping.
pub open spec fn has_content(p: PartModel) -> bool {
    match p {
        PartModel::Text(s) | PartModel::Reasoning(s) | PartModel::Advisor(s) => trimmed(s).len() > 0,
        _ => true,
    }
}

/// Some part holds something worth keeping.
pub open spec fn any_content(parts: Seq<PartModel>) -> bool {
    exists|i: int| 0 <= i < parts.len() && has_content(#[trigger] parts[i])
}

/// An assistant message that holds nothing to show or send. What it was billed
/// does not count.
pub open spec fn is_placeholder(m: MessageModel) -> bool {
    m.role == Role::Assistant && !m.queued && m.attachments.len() == 0 && !any_content(m.parts)
}

/// Whether a part holds something worth keeping.
pub fn part_has_meaningful_content(part: &MessagePart) -> (r: bool)
    ensures
        r == has_content(part_model(*part)),
{
    match part {
        MessagePart::Text(s) => !trim(s.as_str()).as_str().is_empty(),
        MessagePart::Reasoning(s) => !trim(s.as_str()).as_str().is_empty(),
        MessagePart::Advisor(s) => !trim(s.as_str()).as_str().is_empty(),
        MessagePart::RedactedThinking(_) => true,
        MessagePart::Tool(_) => true,
        MessagePart::TaskStatus(_) => true,
        MessagePart::CompactBoundary { .. } => true,
    }
}

fn holds_content(parts: &Vec<MessagePart>) -> (r: bool)
    ensures
        r == any_content(part_models(parts@)),
{
    let ghost all = part_models(parts@);
    let mut i: usize = 0;
    while i < parts.len()
        invariant
            i <= parts@.len(),
            all == part_models(parts@),
            forall|j: int| 0 <= j < i ==> !has_content(#[trigger] all[j]),
        decreases parts@.len() - i,
    {
        assert(all[i as int] == part_model(parts@[i as int]));
        if part_has_meaningful_content(&parts[i]) {
            return true;
        }
        i += 1;
    }
    false
}

/// Whether an assistant message is a placeholder that can be dropped.
pub fn is_empty_assistant_placeholder(msg: &ChatMessage) -> (r: bool)
    ensures
        r == is_placeholder(message_model(*msg)),
{
    msg.role == Role::Assistant && !msg.queued && msg.attachments.len() == 0 && !holds_content(&msg.parts)
}

// ── stranded tools ──────────────────────────────────────────────────────

/// Whether the tools of the last message are closed too.
#[derive(Debug, Clone, Copy, PartialEq, Eq, Structural)]
pub enum TerminalizeTail {
    /// The last message may still be running.
    Preserve,
    /// Nothing is running.
    Include,
}

/// The output of a tool that never reported back.
pub open spec fn abandoned_text() -> Seq<char> {
    "Tool did not report completion before the session was saved (status reset to failed on persist)."@
}

/// A tool call that has ended: one that had not counts as failed.
pub open spec fn closed_tool(t: ToolModel) -> ToolModel {
    if t.status.ended() {
        t
    } else {
        ToolModel {
            status: ToolStatus::Failed,
            output: if t.output is Empty {
                OutputModel::Text(abandoned_text())
            } else {
                t.output
            },
            ..t
        }
    }
}

/// A part with its tool call closed.
pub open spec fn closed_part(p: PartModel) -> PartModel {
    match p {
        PartModel::Tool(t) => PartModel::Tool(closed_tool(t)),
        _ => p,
    }
}

/// Parts with their tool calls closed.
pub open spec fn closed_parts(parts: Seq<PartModel>) -> Seq<PartModel> {
    parts.map_values(|p: PartModel| closed_part(p))
}

/// A message with its tool calls closed.
pub open spec fn closed_message(m: MessageModel) -> MessageModel {
    MessageModel { parts: closed_parts(m.parts), ..m }
}

/// The messages with their tool calls closed, those of the last one only where
/// `tail` says so.
pub open spec fn terminalized(msgs: Seq<MessageModel>, tail: TerminalizeTail) -> Seq<MessageModel> {
    Seq::new(
        msgs.len(),
        |i: int|
            if tail == TerminalizeTail::Include || i < msgs.len() - 1 {
                closed_message(msgs[i])
            } else {
                msgs[i]
            },
    )
}

fn close_part(part: MessagePart) -> (r: MessagePart)
    ensures
        part_model(r) == closed_part(part_model(part)),
{
    match part {
        MessagePart::Tool(tc) => {
            if tc.status.is_terminal() {
                MessagePart::Tool(tc)
            } else {
                let output = match tc.output {
                    ToolOutput::Empty => ToolOutput::Text(
                        "Tool did not report completion before the session was saved (status reset to failed on persist).".to_owned(),
                    ),
                    other => other,
                };
                MessagePart::Tool(
                    ToolCall {
                        id: tc.id,
                        kind: tc.kind,
                        status: ToolStatus::Failed,
                        input: tc.input,
                        output,
                        display: tc.display,
                        elapsed_ms: tc.elapsed_ms,
                        started_at: tc.started_at,
                        thought_signature: tc.thought_signature,
                    },
                )
            }
        },
        other => other,
    }
}

fn close_message(m: &ChatMessage) -> (r: ChatMessage)
    ensures
        message_model(r) == closed_message(message_model(*m)),
{
    let ghost all = part_models(m.parts@);
    let mut parts: Vec<MessagePart> = Vec::new();
    let mut i: usize = 0;
    assert(part_models(parts@) =~= closed_parts(all).take(0));
    while i < m.parts.len()
        invariant
            i <= m.parts@.len(),
            all == part_models(m.parts@),
            part_models(parts@) == closed_parts(all).take(i as int),
        decreases m.parts@.len() - i,
    {
        let part = close_part(m.parts[i].clone());
        assert(part_model(part) == closed_parts(all)[i as int]);
        parts.push(part);
        assert(closed_parts(all).take(i + 1) =~= closed_parts(all).take(i as int).push(
            closed_parts(all)[i as int],
        ));
        i += 1;
    }
    assert(closed_parts(all).take(i as int) =~= closed_parts(all));
    let copy = m.clone();
    ChatMessage { parts, ..copy }
}

/// Close the tool calls that never reported back.
pub fn terminalize_stranded_tools(messages: &Vec<ChatMessage>, tail: TerminalizeTail) -> (r: Vec<ChatMessage>)
    ensures
        message_models(r@) == terminalized(message_models(messages@), tail),
{
    let ghost goal = terminalized(message_models(messages@), tail);
    let mut out: Vec<ChatMessage> = Vec::new();
    let mut i: usize = 0;
    assert(message_models(out@) =~= goal.take(0));
    while i < messages.len()
        invariant
            i <= messages@.len(),
            goal == terminalized(message_models(messages@), tail),
            message_models(out@) == goal.take(i as int),
        decreases messages@.len() - i,
    {
        assert(message_models(messages@)[i as int] == message_model(messages@[i as int]));
        let m = if tail == TerminalizeTail::Include || i < messages.len() - 1 {
            close_message(&messages[i])
        } else {
            messages[i].clone()
        };
        assert(message_model(m) == goal[i as int]);
        out.push(m);
        assert(goal.take(i + 1) =~= goal.take(i as int).push(goal[i as int]));
        i += 1;
    }
    assert(goal.take(i as int) =~= goal);
    out
}

// ── saving ──────────────────────────────────────────────────────────────

/// The messages that are saved: sent, and no placeholders.
pub open spec fn saved_messages(msgs: Seq<MessageModel>) -> Seq<MessageModel>
    decreases msgs.len(),
{
    if msgs.len() == 0 {
        msgs
    } else if msgs.last().queued || is_placeholder(msgs.last()) {
        saved_messages(msgs.drop_last())
    } else {
        saved_messages(msgs.drop_last()).push(msgs.last())
    }
}

/// The transcript as it goes to disk.
pub open spec fn persistent(msgs: Seq<MessageModel>) -> Seq<MessageModel> {
    coalesced(terminalized(saved_messages(msgs), TerminalizeTail::Preserve))
}

/// The transcript as it goes to disk: without placeholders and queued messages,
/// with stranded tools closed (those of the last message may still run), one
/// message per turn.
pub fn persistent_session_messages(messages: &[ChatMessage]) -> (r: Vec<ChatMessage>)
    ensures
        message_models(r@) == persistent(message_models(messages@)),
{
    let ghost all = message_models(messages@);
    let mut kept: Vec<ChatMessage> = Vec::new();
    let mut i: usize = 0;
    assert(message_models(kept@) =~= saved_messages(all.take(0)));
    while i < messages.len()
        invariant
            i <= messages@.len(),
            all == message_models(messages@),
            message_models(kept@) == saved_messages(all.take(i as int)),
        decreases messages@.len() - i,
    {
        assert(all.take(i + 1).drop_last() =~= all.take(i as int));
        assert(all.take(i + 1).last() == message_model(messages@[i as int]));
        if !messages[i].queued && !is_empty_assistant_placeholder(&messages[i]) {
            kept.push(messages[i].clone());
        }
        i += 1;
    }
    assert(all.take(i as int) =~= all);
    let closed = terminalize_stranded_tools(&kept, TerminalizeTail::Preserve);
    coalesce_consecutive_same_role(closed.as_slice())
}

// ── loading ─────────────────────────────────────────────────────────────

/// Parts without tool calls.
pub open spec fn without_tools(parts: Seq<PartModel>) -> Seq<PartModel>
    decreases parts.len(),
{
    if parts.len() == 0 {
        parts
    } else if parts.last() is Tool {
        without_tools(parts.drop_last())
    } else {
        without_tools(parts.drop_last()).push(parts.last())
    }
}

/// A message whose tool calls stand where they belong: a message of the user
/// has none.
pub open spec fn without_orphans(m: MessageModel) -> MessageModel {
    if m.role == Role::User {
        MessageModel { parts: without_tools(m.parts), ..m }
    } else {
        m
    }
}

/// The messages that are no placeholders.
pub open spec fn without_placeholders(msgs: Seq<MessageModel>) -> Seq<MessageModel>
    decreases msgs.len(),
{
    if msgs.len() == 0 {
        msgs
    } else if is_placeholder(msgs.last()) {
        without_placeholders(msgs.drop_last())
    } else {
        without_placeholders(msgs.drop_last()).push(msgs.last())
    }
}

/// The messages without tool calls of the user, and without the messages of the
/// user that then have no parts.
pub open spec fn stripped_of_orphans(msgs: Seq<MessageModel>) -> Seq<MessageModel>
    decreases msgs.len(),
{
    if msgs.len() == 0 {
        msgs
    } else {
        let before = stripped_of_orphans(msgs.drop_last());
        let m = without_orphans(msgs.last());
        if m.role == Role::User && m.parts.len() == 0 {
            before
        } else {
            before.push(m)
        }
    }
}

/// A message with neighbouring texts joined.
pub open spec fn with_joined_texts(m: MessageModel) -> MessageModel {
    MessageModel { parts: joined_texts(m.parts), ..m }
}

/// A loaded transcript, mended.
pub open spec fn repaired(msgs: Seq<MessageModel>) -> Seq<MessageModel> {
    terminalized(coalesced(stripped_of_orphans(without_placeholders(msgs))), TerminalizeTail::Include).map_values(
        |m: MessageModel| with_joined_texts(m),
    )
}

fn strip_message(m: &ChatMessage) -> (r: ChatMessage)
    ensures
        message_model(r) == without_orphans(message_model(*m)),
{
    let copy = m.clone();
    if m.role != Role::User {
        return copy;
    }
    let ghost all = part_models(m.parts@);
    let mut parts: Vec<MessagePart> = Vec::new();
    let mut i: usize = 0;
    assert(part_models(parts@) =~= without_tools(all.take(0)));
    while i < m.parts.len()
        invariant
            i <= m.parts@.len(),
            all == part_models(m.parts@),
            part_models(parts@) == without_tools(all.take(i as int)),
        decreases m.parts@.len() - i,
    {
        assert(all.take(i + 1).drop_last() =~= all.take(i as int));
        assert(all.take(i + 1).last() == part_model(m.parts@[i as int]));
        if !matches!(&m.parts[i], MessagePart::Tool(_)) {
            parts.push(m.parts[i].clone());
        }
        i += 1;
    }
    assert(all.take(i as int) =~= all);
    ChatMessage { parts, ..copy }
}

/// Drop tool calls that stand on messages of the user, and the messages of the
/// user that are left without parts.
pub fn strip_orphan_user_tool_parts(messages: &Vec<ChatMessage>) -> (r: Vec<ChatMessage>)
    ensures
        message_models(r@) == stripped_of_orphans(message_models(messages@)),
{
    let ghost all = message_models(messages@);
    let mut kept: Vec<ChatMessage> = Vec::new();
    let mut i: usize = 0;
    assert(message_models(kept@) =~= stripped_of_orphans(all.take(0)));
    while i < messages.len()
        invariant
            i <= messages@.len(),
            all == message_models(messages@),
            message_models(kept@) == stripped_of_orphans(all.take(i as int)),
        decreases messages@.len() - i,
    {
        assert(all.take(i + 1).drop_last() =~= all.take(i as int));
        assert(all.take(i + 1).last() == message_model(messages@[i as int]));
        let m = strip_message(&messages[i]);
        if m.role != Role::User || m.parts.len() > 0 {
            kept.push(m);
        }
        i += 1;
    }
    assert(all.take(i as int) =~= all);
    kept
}

/// Mend a loaded transcript: drop what holds nothing, merge turns, close every
/// tool call that never reported back, and join split texts.
pub fn repair_loaded_messages(messages: Vec<ChatMessage>) -> (r: Vec<ChatMessage>)
    ensures
        message_models(r@) == repaired(message_models(messages@)),
{
    let ghost all = message_models(messages@);
    let mut kept: Vec<ChatMessage> = Vec::new();
    let mut i: usize = 0;
    assert(message_models(kept@) =~= without_placeholders(all.take(0)));
    while i < messages.len()
        invariant
            i <= messages@.len(),
            all == message_models(messages@),
            message_models(kept@) == without_placeholders(all.take(i as int)),
        decreases messages@.len() - i,
    {
        assert(all.take(i + 1).drop_last() =~= all.take(i as int));
        assert(all.take(i + 1).last() == message_model(messages@[i as int]));
        if !is_empty_assistant_placeholder(&messages[i]) {
            kept.push(messages[i].clone());
        }
        i += 1;
    }
    assert(all.take(i as int) =~= all);
    let stripped = strip_orphan_user_tool_parts(&kept);
    let turns = coalesce_consecutive_same_role(stripped.as_slice());
    let closed = terminalize_stranded_tools(&turns, TerminalizeTail::Include);
    let ghost before = message_models(closed@);
    let ghost goal = before.map_values(|m: MessageModel| with_joined_texts(m));
    let mut out: Vec<ChatMessage> = Vec::new();
    let mut k: usize = 0;
    assert(message_models(out@) =~= goal.take(0));
    while k < closed.len()
        invariant
            k <= closed@.len(),
            before == message_models(closed@),
            goal == before.map_values(|m: MessageModel| with_joined_texts(m)),
            message_models(out@) == goal.take(k as int),
        decreases closed@.len() - k,
    {
        let parts = merge_consecutive_text_parts(&closed[k].parts);
        let copy = closed[k].clone();
        let m = ChatMessage { parts, ..copy };
        assert(before[k as int] == message_model(closed@[k as int]));
        assert(message_model(m) == goal[k as int]);
        out.push(m);
        assert(goal.take(k + 1) =~= goal.take(k as int).push(goal[k as int]));
        k += 1;
    }
    assert(goal.take(k as int) =~= goal);
    out
}

// ── laws ────────────────────────────────────────────────────────────────

proof fn lemma_joined_texts(parts: Seq<PartModel>)
    ensures
        joined_texts(parts).len() <= parts.len(),
        forall|i: int|
            0 <= i < joined_texts(parts).len() ==> (#[trigger] joined_texts(parts)[i]) is Text || parts.contains(
                joined_texts(parts)[i],
            ),
        forall|i: int|
            0 < i < joined_texts(parts).len() ==> !((#[trigger] joined_texts(parts)[i]) is Text) || !(joined_texts(
                parts,
            )[i - 1] is Text),
    decreases parts.len(),
{
    if parts.len() > 0 {
        let before = parts.drop_last();
        lemma_joined_texts(before);
        let (j, k) = (joined_texts(before), joined_texts(parts));
        assert forall|i: int| 0 <= i < k.len() implies (#[trigger] k[i]) is Text || parts.contains(k[i]) by {
            if !(k[i] is Text) {
                if i < j.len() && k[i] == j[i] {
                    let at = choose|a: int| 0 <= a < before.len() && before[a] == j[i];
                    assert(parts[at] == k[i]);
                } else {
                    assert(parts[parts.len() - 1] == k[i]);
                }
            }
        }
        assert forall|i: int| 0 < i < k.len() implies !((#[trigger] k[i]) is Text) || !(k[i - 1] is Text) by {
            if i < j.len() {
                assert(!(j[i] is Text) || !(j[i - 1] is Text));
            }
        }
    }
}

proof fn lemma_merged_is_no_boundary(a: MessageModel, b: MessageModel)
    requires
        !is_boundary(a),
        !is_boundary(b),
    ensures
        !is_boundary(merged(a, b)),
{
    let parts = a.parts + b.parts;
    let m = merged(a, b);
    lemma_joined_texts(parts);
    assert forall|i: int| 0 <= i < m.parts.len() implies !((#[trigger] m.parts[i]) is CompactBoundary) by {
        if !(m.parts[i] is Text) {
            let at = choose|k: int| 0 <= k < parts.len() && parts[k] == m.parts[i];
            if at < a.parts.len() {
                assert(a.parts[at] == m.parts[i]);
            } else {
                assert(b.parts[at - a.parts.len()] == m.parts[i]);
            }
        }
    }
}

/// No message continues the one before it.
pub open spec fn turns_are_whole(msgs: Seq<MessageModel>) -> bool {
    forall|i: int| 0 < i < msgs.len() ==> !continues(msgs[i - 1], #[trigger] msgs[i])
}

/// After coalescing no two neighbours could be merged.
pub proof fn law_coalescing_leaves_whole_turns(msgs: Seq<MessageModel>)
    ensures
        turns_are_whole(coalesced(msgs)),
    decreases msgs.len(),
{
    if msgs.len() > 0 {
        law_coalescing_leaves_whole_turns(msgs.drop_last());
        let before = coalesced(msgs.drop_last());
        let after = coalesced(msgs);
        if before.len() > 0 && continues(before.last(), msgs.last()) {
            lemma_merged_is_no_boundary(before.last(), msgs.last());
        }
        assert forall|i: int| 0 < i < after.len() implies !continues(after[i - 1], #[trigger] after[i]) by {
            if i < before.len() {
                assert(!continues(before[i - 1], before[i]));
            }
        }
    }
}

proof fn lemma_whole_turns_stay(msgs: Seq<MessageModel>)
    requires
        turns_are_whole(msgs),
    ensures
        coalesced(msgs) == msgs,
    decreases msgs.len(),
{
    if msgs.len() > 0 {
        let before = msgs.drop_last();
        assert forall|i: int| 0 < i < before.len() implies !continues(before[i - 1], #[trigger] before[i]) by {
            assert(!continues(msgs[i - 1], msgs[i]));
        }
        lemma_whole_turns_stay(before);
        if before.len() > 0 {
            assert(!continues(msgs[msgs.len() - 2], msgs[msgs.len() - 1]));
        }
        assert(before.push(msgs.last()) =~= msgs);
    }
}

/// Coalescing a second time changes nothing.
pub proof fn law_coalescing_twice_changes_nothing(msgs: Seq<MessageModel>)
    ensures
        coalesced(coalesced(msgs)) == coalesced(msgs),
{
    law_coalescing_leaves_whole_turns(msgs);
    lemma_whole_turns_stay(coalesced(msgs));
}

/// What is saved holds one message per turn, and saving it again would merge
/// nothing more.
pub proof fn law_saved_turns_are_whole(msgs: Seq<MessageModel>)
    ensures
        turns_are_whole(persistent(msgs)),
        coalesced(persistent(msgs)) == persistent(msgs),
{
    let closed = terminalized(saved_messages(msgs), TerminalizeTail::Preserve);
    law_coalescing_leaves_whole_turns(closed);
    law_coalescing_twice_changes_nothing(closed);
}

/// Every tool call of the message has ended.
pub open spec fn tools_ended(m: MessageModel) -> bool {
    forall|k: int| 0 <= k < m.parts.len() && (#[trigger] m.parts[k]) is Tool ==> m.parts[k]->Tool_0.status.ended()
}

/// After a repair every tool call has ended.
pub proof fn law_repaired_tools_have_ended(msgs: Seq<MessageModel>)
    ensures
        forall|i: int| 0 <= i < repaired(msgs).len() ==> tools_ended(#[trigger] repaired(msgs)[i]),
{
    let turns = coalesced(stripped_of_orphans(without_placeholders(msgs)));
    let closed = terminalized(turns, TerminalizeTail::Include);
    assert forall|i: int| 0 <= i < repaired(msgs).len() implies tools_ended(#[trigger] repaired(msgs)[i]) by {
        let m = repaired(msgs)[i];
        assert(closed[i] == closed_message(turns[i]));
        assert(m == with_joined_texts(closed[i]));
        lemma_joined_texts(closed[i].parts);
        assert forall|k: int| 0 <= k < m.parts.len() && (#[trigger] m.parts[k]) is Tool implies m.parts[k]->Tool_0.status.ended() by {
            let at = choose|a: int| 0 <= a < closed[i].parts.len() && closed[i].parts[a] == m.parts[k];
            assert(closed[i].parts[at] == closed_part(turns[i].parts[at]));
        }
    }
}

/// After a repair no two texts of a message are neighbours.
pub proof fn law_repaired_texts_are_joined(msgs: Seq<MessageModel>, i: int, k: int)
    requires
        0 <= i < repaired(msgs).len(),
        0 < k < repaired(msgs)[i].parts.len(),
    ensures
        !(repaired(msgs)[i].parts[k - 1] is Text && repaired(msgs)[i].parts[k] is Text),
{
    let turns = coalesced(stripped_of_orphans(without_placeholders(msgs)));
    let closed = terminalized(turns, TerminalizeTail::Include);
    assert(repaired(msgs)[i] == with_joined_texts(closed[i]));
    lemma_joined_texts(closed[i].parts);
}

proof fn lemma_first_text(parts: Seq<PartModel>, k: int)
    requires
        0 <= k < parts.len(),
        parts[k] is Text,
        trimmed(parts[k]->Text_0).len() > 0,
        forall|j: int| 0 <= j < k && (#[trigger] parts[j]) is Text ==> trimmed(parts[j]->Text_0).len() == 0,
    ensures
        first_text(parts) == Some(trimmed(parts[k]->Text_0)),
    decreases parts.len(),
{
    if k > 0 {
        let rest = parts.skip(1);
        assert(rest[k - 1] == parts[k]);
        assert forall|j: int| 0 <= j < k - 1 && (#[trigger] rest[j]) is Text implies trimmed(rest[j]->Text_0).len() == 0 by {
            assert(rest[j] == parts[j + 1]);
        }
        assert(parts[0] is Text ==> trimmed(parts[0]->Text_0).len() == 0);
        lemma_first_text(rest, k - 1);
    }
}

/// A session is listed under the first thing that the user said, without the space
/// around it; what the assistant said before does not matter.
pub proof fn law_sessions_are_listed_under_their_first_prompt(msgs: Seq<MessageModel>, i: int, k: int)
    requires
        0 <= i < msgs.len(),
        msgs[i].role == Role::User,
        forall|j: int| 0 <= j < i ==> (#[trigger] msgs[j]).role == Role::Assistant,
        0 <= k < msgs[i].parts.len(),
        msgs[i].parts[k] is Text,
        trimmed(msgs[i].parts[k]->Text_0).len() > 0,
        forall|j: int|
            0 <= j < k && (#[trigger] msgs[i].parts[j]) is Text ==> trimmed(msgs[i].parts[j]->Text_0).len() == 0,
        utf8_size(trimmed(msgs[i].parts[k]->Text_0)) <= 100,
    ensures
        first_prompt(msgs) == Some(trimmed(msgs[i].parts[k]->Text_0)),
    decreases msgs.len(),
{
    if i == 0 {
        lemma_first_text(msgs[0].parts, k);
    } else {
        let rest = msgs.skip(1);
        assert(rest[i - 1] == msgs[i]);
        assert forall|j: int| 0 <= j < i - 1 implies (#[trigger] rest[j]).role == Role::Assistant by {
            assert(rest[j] == msgs[j + 1]);
        }
        assert(msgs[0].role == Role::Assistant);
        law_sessions_are_listed_under_their_first_prompt(rest, i - 1, k);
    }
}

/// A tool that did not end is closed as failed and keeps what it has put out; one that
/// ended is left as it is.
pub proof fn law_open_tools_are_closed_as_failed(t: ToolModel)
    ensures
        closed_tool(t).status.ended(),
        t.status.ended() ==> closed_tool(t) == t,
        !t.status.ended() ==> closed_tool(t).status == ToolStatus::Failed,
        !(t.output is Empty) ==> closed_tool(t).output == t.output,
        !t.status.ended() && t.output is Empty ==> !(closed_tool(t).output is Empty),
        closed_tool(t).id == t.id && closed_tool(t).kind == t.kind && closed_tool(t).input == t.input,
{
}

/// Of the parts of a message the tool calls alone are taken out: none is left, and every
/// other part stays.
pub proof fn law_only_tool_calls_are_taken_out(parts: Seq<PartModel>, i: int)
    ensures
        0 <= i < without_tools(parts).len() ==> !(without_tools(parts)[i] is Tool) && parts.contains(
            without_tools(parts)[i],
        ),
        0 <= i < parts.len() && !(parts[i] is Tool) ==> without_tools(parts).contains(parts[i]),
        without_tools(parts).len() <= parts.len(),
    decreases parts.len(),
{
    if parts.len() > 0 {
        let front = parts.drop_last();
        law_only_tool_calls_are_taken_out(front, i);
        let kept = without_tools(parts);
        if 0 <= i < kept.len() {
            if i < without_tools(front).len() {
                let j = choose|j: int| 0 <= j < front.len() && front[j] == without_tools(front)[i];
                assert(parts[j] == kept[i]);
            } else {
                assert(parts[parts.len() - 1] == kept[i]);
            }
        }
        if 0 <= i < parts.len() && !(parts[i] is Tool) {
            if i < front.len() {
                assert(front[i] == parts[i]);
                let j = choose|j: int| 0 <= j < without_tools(front).len() && without_tools(front)[j] == front[i];
                assert(kept[j] == parts[i]);
            } else {
                assert(kept[kept.len() - 1] == parts[i]);
            }
        }
    }
}

/// A prompt of up to 100 bytes is listed whole, of a longer one the beginning, with a
/// sign that more follows.
pub proof fn law_short_prompts_are_listed_whole(t: Seq<char>)
    ensures
        utf8_size(t) <= 100 ==> listed_prompt(t) == t,
        utf8_size(t) > 100 ==> listed_prompt(t).len() > 0 && listed_prompt(t).last() == '…' && listed_prompt(
            t,
        ).drop_last() == cut_at_bytes(t, 100),
{
    reveal_strlit("…");
    assert((cut_at_bytes(t, 100) + "…"@).drop_last() =~= cut_at_bytes(t, 100));
}

} // verus!
