//! Draining the queue of prompts that were typed while a turn was running.
use vstd::prelude::*;

use crate::slicing::{group_texts, texts};
use crate::text::{cat3, same_text};
use crate::time::Instant;
use crate::transcript::{
    attachment_models, extend_attachments, group_models, message_model, message_models, part_model, part_models,
    plain_message, Attachment, AttachmentKind, ChatMessage, MessageModel, MessagePart, PartModel, Role,
};

verus! {

broadcast use {group_texts, group_models};

/// A prompt that waits.
#[derive(Debug)]
pub struct QueuedPrompt {
    pub text: String,
    /// The prompt is a command, not a message.
    pub is_meta: bool,
    pub attachments: Vec<Attachment>,
}

/// What a waiting prompt says.
pub struct PromptModel {
    pub text: Seq<char>,
    pub is_meta: bool,
    pub attachments: Seq<(u64, AttachmentKind, Seq<u8>)>,
}

pub open spec fn prompt_model(p: QueuedPrompt) -> PromptModel {
    PromptModel { text: p.text@, is_meta: p.is_meta, attachments: attachment_models(p.attachments@) }
}

pub open spec fn prompt_models(v: Seq<QueuedPrompt>) -> Seq<PromptModel> {
    v.map_values(|p: QueuedPrompt| prompt_model(p))
}

/// How a waiting prompt stands in the transcript.
pub open spec fn placeholder(p: PromptModel) -> Seq<char> {
    (if p.is_meta {
        "⚙"@
    } else {
        "⏳"@
    }) + " "@ + p.text
}

fn placeholder_text(p: &QueuedPrompt) -> (r: String)
    ensures
        r@ == placeholder(prompt_model(*p)),
{
    let glyph = if p.is_meta {
        "⚙"
    } else {
        "⏳"
    };
    cat3(glyph, " ", p.text.as_str())
}

// ── promoting a placeholder ─────────────────────────────────────────────

/// The first part at or after `from` that is exactly that text, or the number
/// of parts.
pub open spec fn part_with(parts: Seq<PartModel>, text: Seq<char>, from: int) -> int
    decreases parts.len() - from,
{
    if from < 0 || from >= parts.len() {
        parts.len() as int
    } else if parts[from] == PartModel::Text(text) {
        from
    } else {
        part_with(parts, text, from + 1)
    }
}

/// The first message of the user at or after `from` that holds the placeholder,
/// or the number of messages.
pub open spec fn message_with(msgs: Seq<MessageModel>, text: Seq<char>, from: int) -> int
    decreases msgs.len() - from,
{
    if from < 0 || from >= msgs.len() {
        msgs.len() as int
    } else if msgs[from].role == Role::User && part_with(msgs[from].parts, text, 0) < msgs[from].parts.len() {
        from
    } else {
        message_with(msgs, text, from + 1)
    }
}

/// The message with its placeholder turned into the prompt.
pub open spec fn promoted_message(m: MessageModel, p: PromptModel) -> MessageModel {
    MessageModel {
        parts: m.parts.update(part_with(m.parts, placeholder(p), 0), PartModel::Text(p.text)),
        queued: false,
        attachments: if p.attachments.len() > 0 {
            p.attachments
        } else {
            m.attachments
        },
        ..m
    }
}

/// The messages with the placeholder of `p` turned into the prompt, where there
/// is one.
pub open spec fn promoted(msgs: Seq<MessageModel>, p: PromptModel) -> Seq<MessageModel> {
    let i = message_with(msgs, placeholder(p), 0);
    if 0 <= i < msgs.len() {
        msgs.update(i, promoted_message(msgs[i], p))
    } else {
        msgs
    }
}

fn find_part(parts: &Vec<MessagePart>, text: &str) -> (r: usize)
    ensures
        r == part_with(part_models(parts@), text@, 0),
        r <= parts@.len(),
{
    let ghost all = part_models(parts@);
    let mut i: usize = 0;
    while i < parts.len()
        invariant
            i <= parts@.len(),
            all == part_models(parts@),
            part_with(all, text@, 0) == part_with(all, text@, i as int),
        decreases parts@.len() - i,
    {
        assert(all[i as int] == part_model(parts@[i as int]));
        if let MessagePart::Text(t) = &parts[i] {
            if same_text(t.as_str(), text) {
                return i;
            }
        }
        i += 1;
    }
    i
}

fn find_message(msgs: &Vec<ChatMessage>, text: &str) -> (r: usize)
    ensures
        r == message_with(message_models(msgs@), text@, 0),
        r <= msgs@.len(),
        r < msgs@.len() ==> part_with(message_model(msgs@[r as int]).parts, text@, 0)
            < msgs@[r as int].parts@.len(),
{
    let ghost all = message_models(msgs@);
    let mut i: usize = 0;
    while i < msgs.len()
        invariant
            i <= msgs@.len(),
            all == message_models(msgs@),
            message_with(all, text@, 0) == message_with(all, text@, i as int),
        decreases msgs@.len() - i,
    {
        assert(all[i as int] == message_model(msgs@[i as int]));
        if msgs[i].role == Role::User && find_part(&msgs[i].parts, text) < msgs[i].parts.len() {
            return i;
        }
        i += 1;
    }
    i
}

/// Turn the placeholder of `p` into the prompt.
pub fn promote(msgs: &mut Vec<ChatMessage>, p: &QueuedPrompt)
    ensures
        message_models(final(msgs)@) == promoted(message_models(old(msgs)@), prompt_model(*p)),
{
    let mark = placeholder_text(p);
    let i = find_message(msgs, mark.as_str());
    if i >= msgs.len() {
        return;
    }
    let ghost before = msgs@;
    let ghost model = message_model(before[i as int]);
    assert(message_models(before)[i as int] == model);
    let copy = msgs[i].clone();
    let at = find_part(&msgs[i].parts, mark.as_str());
    let mut parts = copy.parts;
    let ghost part_before = part_models(parts@);
    assert(at < parts@.len()) by {
        assert(part_models(parts@).len() == parts@.len());
    }
    parts.set(at, MessagePart::Text(p.text.clone()));
    assert(part_models(parts@) =~= part_before.update(at as int, PartModel::Text(p.text@)));
    let attachments = if p.attachments.len() > 0 {
        let mut fresh: Vec<Attachment> = Vec::new();
        extend_attachments(&mut fresh, &p.attachments);
        assert(attachment_models(fresh@) =~= attachment_models(p.attachments@));
        fresh
    } else {
        copy.attachments
    };
    let m = ChatMessage {
        role: copy.role,
        parts,
        attachments,
        queued: false,
        agent_name: copy.agent_name,
        model_name: copy.model_name,
        cost_tier: copy.cost_tier,
        elapsed: copy.elapsed,
        usage: copy.usage,
    };
    assert(message_model(m) == promoted_message(model, prompt_model(*p)));
    msgs.set(i, m);
    assert(message_models(msgs@) =~= message_models(before).update(i as int, message_model(m)));
}

// ── a whole batch ───────────────────────────────────────────────────────

/// The messages after the batch was promoted.
pub open spec fn all_promoted(msgs: Seq<MessageModel>, batch: Seq<PromptModel>) -> Seq<MessageModel>
    decreases batch.len(),
{
    if batch.len() == 0 {
        msgs
    } else {
        promoted(all_promoted(msgs, batch.drop_last()), batch.last())
    }
}

/// The commands of a batch.
pub open spec fn commands_of(batch: Seq<PromptModel>) -> Seq<Seq<char>>
    decreases batch.len(),
{
    if batch.len() == 0 {
        Seq::empty()
    } else if batch.last().is_meta {
        commands_of(batch.drop_last()).push(batch.last().text)
    } else {
        commands_of(batch.drop_last())
    }
}

/// The messages of a batch.
pub open spec fn prompts_of(batch: Seq<PromptModel>) -> Seq<Seq<char>>
    decreases batch.len(),
{
    if batch.len() == 0 {
        Seq::empty()
    } else if batch.last().is_meta {
        prompts_of(batch.drop_last())
    } else {
        prompts_of(batch.drop_last()).push(batch.last().text)
    }
}

/// What a turn keeps while it streams. Money is counted in billionths of a
/// dollar.
#[derive(Debug)]
pub struct TurnState {
    pub messages: Vec<ChatMessage>,
    pub queued_prompts: Vec<QueuedPrompt>,
    pub total_user_turns: usize,
    pub streaming_text: String,
    pub streaming_reasoning: String,
    pub streaming_response_bytes: usize,
    /// The bytes of the answers before this one in the turn.
    pub streaming_response_baseline: usize,
    pub streaming_thinking_tokens: u64,
    pub turn_output_tokens: u64,
    pub refusal_fallback_attempted: bool,
    pub network_recovery_status: Option<String>,
    pub network_recovery_attempts: u32,
    pub stream_lifecycle: Option<String>,
    pub streaming_assistant_idx: Option<usize>,
    pub is_streaming: bool,
    pub streaming_started_at: Option<Instant>,
    pub last_stream_event_at: Option<Instant>,
    pub streaming_last_token_at: Option<Instant>,
    pub turn_started_at: Option<Instant>,
    pub turn_start_cost: u64,
    pub pending_classifications: usize,
    pub agentic_turn_count: usize,
    pub last_usage_output: u64,
    pub usage_apply_baseline: (u64, u64, u64, u64),
}

/// The clocks and counters of a turn that begins at `now`.
pub open spec fn turn_begins(s: TurnState, now: Instant, cost: u64) -> bool {
    &&& s.streaming_text@.len() == 0
    &&& s.streaming_reasoning@.len() == 0
    &&& s.streaming_response_bytes == 0
    &&& s.turn_output_tokens == 0
    &&& !s.refusal_fallback_attempted
    &&& s.network_recovery_status is None
    &&& s.network_recovery_attempts == 0
    &&& s.stream_lifecycle is None
    &&& s.is_streaming
    &&& s.streaming_started_at == Some(now)
    &&& s.last_stream_event_at == Some(now)
    &&& s.streaming_last_token_at == Some(now)
    &&& s.turn_started_at == Some(now)
    &&& s.turn_start_cost == cost
    &&& s.pending_classifications == 0
    &&& s.agentic_turn_count == 0
    &&& s.last_usage_output == 0
    &&& s.usage_apply_baseline == (0u64, 0u64, 0u64, 0u64)
}

/// Everything but the messages and the queue is as before.
pub open spec fn turn_untouched(after: TurnState, before: TurnState) -> bool {
    after == (TurnState { messages: after.messages, queued_prompts: after.queued_prompts, ..before })
}

fn begin_turn(s: &mut TurnState, assistant_idx: usize, now: Instant, cost: u64)
    ensures
        turn_begins(*final(s), now, cost),
        final(s).streaming_assistant_idx == Some(assistant_idx),
        final(s).messages == old(s).messages,
        final(s).queued_prompts == old(s).queued_prompts,
        final(s).total_user_turns == old(s).total_user_turns,
        final(s).streaming_response_baseline == old(s).streaming_response_baseline,
        final(s).streaming_thinking_tokens == old(s).streaming_thinking_tokens,
{
    s.streaming_text = String::new();
    s.streaming_reasoning = String::new();
    s.streaming_response_bytes = 0;
    s.turn_output_tokens = 0;
    s.refusal_fallback_attempted = false;
    s.network_recovery_status = None;
    s.network_recovery_attempts = 0;
    s.stream_lifecycle = None;
    s.streaming_assistant_idx = Some(assistant_idx);
    s.is_streaming = true;
    s.streaming_started_at = Some(now);
    s.last_stream_event_at = Some(now);
    s.streaming_last_token_at = Some(now);
    s.turn_started_at = Some(now);
    s.turn_start_cost = cost;
    s.pending_classifications = 0;
    s.agentic_turn_count = 0;
    s.last_usage_output = 0;
    s.usage_apply_baseline = (0, 0, 0, 0);
}

/// What is to be done after a drain. The commands come first, in order.
#[derive(Debug)]
pub struct DrainPlan {
    pub commands: Vec<String>,
    /// The prompts of the turn that begins. Nothing is streamed where there are
    /// none.
    pub prompts: Vec<String>,
    /// The message into which the answer is streamed.
    pub stream_into: Option<usize>,
}

/// A drain at `now` led from one state to the other. Every placeholder became its
/// prompt and the queue is empty. Where the batch held a message, an answer is
/// staged behind all messages and its turn has begun; otherwise nothing else has
/// changed.
pub open spec fn is_drained(after: TurnState, before: TurnState, plan: DrainPlan, now: Instant, cost: u64) -> bool {
    let batch = prompt_models(before.queued_prompts@);
    let messages = all_promoted(message_models(before.messages@), batch);
    &&& after.queued_prompts@.len() == 0
    &&& texts(plan.commands@) == commands_of(batch)
    &&& texts(plan.prompts@) == prompts_of(batch)
    &&& plan.prompts@.len() == 0 ==> {
        &&& message_models(after.messages@) == messages
        &&& turn_untouched(after, before)
        &&& plan.stream_into is None
    }
    &&& plan.prompts@.len() > 0 ==> {
        &&& message_models(after.messages@) == messages.push(
            plain_message(Role::Assistant, seq![PartModel::Text(""@)]),
        )
        &&& turn_begins(after, now, cost)
        &&& after.total_user_turns == before.total_user_turns + 1
        &&& after.streaming_response_baseline == before.streaming_response_baseline
        &&& after.streaming_thinking_tokens == before.streaming_thinking_tokens
        &&& after.streaming_assistant_idx == Some((after.messages@.len() - 1) as usize)
        &&& plan.stream_into == after.streaming_assistant_idx
    }
}

/// Drain the queue into one turn. Every placeholder becomes its prompt, and the
/// commands are handed out. Where the batch holds a message, exactly one answer
/// is staged behind all messages; prompts that come later wait for it.
pub fn drain_queued_prompts(s: &mut TurnState, now: Instant, total_cost: u64) -> (r: DrainPlan)
    requires
        old(s).total_user_turns < usize::MAX,
    ensures
        is_drained(*final(s), *old(s), r, now, total_cost),
{
    let mut batch: Vec<QueuedPrompt> = Vec::new();
    std::mem::swap(&mut batch, &mut s.queued_prompts);
    let ghost all = prompt_models(batch@);
    let ghost start = message_models(s.messages@);
    let mut commands: Vec<String> = Vec::new();
    let mut prompts: Vec<String> = Vec::new();
    let mut i: usize = 0;
    assert(texts(commands@) =~= commands_of(all.take(0)));
    assert(texts(prompts@) =~= prompts_of(all.take(0)));
    assert(start =~= all_promoted(start, all.take(0)));
    while i < batch.len()
        invariant
            i <= batch@.len(),
            all == prompt_models(batch@),
            batch@ == old(s).queued_prompts@,
            s.queued_prompts@.len() == 0,
            turn_untouched(*s, *old(s)),
            message_models(s.messages@) == all_promoted(start, all.take(i as int)),
            texts(commands@) == commands_of(all.take(i as int)),
            texts(prompts@) == prompts_of(all.take(i as int)),
        decreases batch@.len() - i,
    {
        assert(all.take(i + 1).drop_last() =~= all.take(i as int));
        assert(all.take(i + 1).last() == prompt_model(batch@[i as int]));
        promote(&mut s.messages, &batch[i]);
        if batch[i].is_meta {
            commands.push(batch[i].text.clone());
        } else {
            prompts.push(batch[i].text.clone());
        }
        i += 1;
    }
    assert(all.take(i as int) =~= all);
    if prompts.len() == 0 {
        return DrainPlan { commands, prompts, stream_into: None };
    }
    let assistant_idx: usize = s.messages.len();
    s.total_user_turns = s.total_user_turns + 1;
    s.messages.push(ChatMessage::assistant("".to_owned()));
    begin_turn(s, assistant_idx, now, total_cost);
    DrainPlan { commands, prompts, stream_into: Some(assistant_idx) }
}

/// The prompt by which the model of the turn is chosen.
pub fn route_text(plan: &DrainPlan) -> (r: String)
    ensures
        r@ == (if plan.prompts@.len() > 0 {
            plan.prompts@[0]@
        } else {
            Seq::<char>::empty()
        }),
{
    if plan.prompts.len() > 0 {
        plan.prompts[0].clone()
    } else {
        String::new()
    }
}

/// No prompt is lost and none is doubled: each is a command or a message.
pub proof fn law_every_prompt_is_handed_out(batch: Seq<PromptModel>)
    ensures
        commands_of(batch).len() + prompts_of(batch).len() == batch.len(),
    decreases batch.len(),
{
    if batch.len() > 0 {
        law_every_prompt_is_handed_out(batch.drop_last());
    }
}

proof fn lemma_part_with(parts: Seq<PartModel>, text: Seq<char>, from: int)
    requires
        0 <= from <= parts.len(),
    ensures
        from <= part_with(parts, text, from) <= parts.len(),
    decreases parts.len() - from,
{
    if from < parts.len() {
        lemma_part_with(parts, text, from + 1);
    }
}

proof fn lemma_message_with(msgs: Seq<MessageModel>, text: Seq<char>, from: int)
    requires
        0 <= from <= msgs.len(),
    ensures
        from <= message_with(msgs, text, from) <= msgs.len(),
        message_with(msgs, text, from) < msgs.len() ==> {
            let m = msgs[message_with(msgs, text, from)];
            m.role == Role::User && 0 <= part_with(m.parts, text, 0) < m.parts.len()
        },
    decreases msgs.len() - from,
{
    if from < msgs.len() {
        lemma_part_with(msgs[from].parts, text, 0);
        lemma_message_with(msgs, text, from + 1);
    }
}

/// Draining adds no message and takes none away, but for the staged answer.
pub proof fn law_promotion_keeps_the_messages(msgs: Seq<MessageModel>, batch: Seq<PromptModel>)
    ensures
        all_promoted(msgs, batch).len() == msgs.len(),
        forall|i: int|
            0 <= i < msgs.len() ==> (#[trigger] all_promoted(msgs, batch)[i]).role == msgs[i].role
                && all_promoted(msgs, batch)[i].parts.len() == msgs[i].parts.len(),
    decreases batch.len(),
{
    if batch.len() > 0 {
        law_promotion_keeps_the_messages(msgs, batch.drop_last());
        let before = all_promoted(msgs, batch.drop_last());
        let after = all_promoted(msgs, batch);
        lemma_message_with(before, placeholder(batch.last()), 0);
        assert forall|i: int| 0 <= i < msgs.len() implies (#[trigger] after[i]).role == msgs[i].role
            && after[i].parts.len() == msgs[i].parts.len() by {
            assert(before[i].role == msgs[i].role);
        }
    }
}

/// Draining changes no message of the assistant.
pub proof fn law_promotion_leaves_the_assistant_alone(msgs: Seq<MessageModel>, batch: Seq<PromptModel>, i: int)
    requires
        0 <= i < msgs.len(),
        msgs[i].role == Role::Assistant,
    ensures
        all_promoted(msgs, batch)[i] == msgs[i],
    decreases batch.len(),
{
    if batch.len() > 0 {
        law_promotion_leaves_the_assistant_alone(msgs, batch.drop_last(), i);
        law_promotion_keeps_the_messages(msgs, batch.drop_last());
        let before = all_promoted(msgs, batch.drop_last());
        lemma_message_with(before, placeholder(batch.last()), 0);
    }
}

// ── laws of promotion ───────────────────────────────────────────────────

/// The placeholder of the prompt stands there, in a message of the user.
pub open spec fn waits_at(msgs: Seq<MessageModel>, p: PromptModel, i: int, k: int) -> bool {
    &&& 0 <= i < msgs.len()
    &&& msgs[i].role == Role::User
    &&& 0 <= k < msgs[i].parts.len()
    &&& msgs[i].parts[k] == PartModel::Text(placeholder(p))
}

/// A waiting prompt stands in the transcript behind a mark: a gear for a command, an
/// hourglass for a message.
pub proof fn law_placeholders_show_the_prompt(p: PromptModel)
    ensures
        p.is_meta ==> placeholder(p) == "⚙ "@ + p.text,
        !p.is_meta ==> placeholder(p) == "⏳ "@ + p.text,
        placeholder(p) != p.text,
{
    reveal_strlit("⚙");
    reveal_strlit("⏳");
    reveal_strlit(" ");
    reveal_strlit("⚙ ");
    reveal_strlit("⏳ ");
    assert(placeholder(p).len() == p.text.len() + 2);
    assert(p.is_meta ==> placeholder(p) =~= "⚙ "@ + p.text);
    assert(!p.is_meta ==> placeholder(p) =~= "⏳ "@ + p.text);
}

proof fn lemma_part_with_is_first(parts: Seq<PartModel>, text: Seq<char>, from: int)
    requires
        0 <= from <= parts.len(),
    ensures
        from <= part_with(parts, text, from) <= parts.len(),
        part_with(parts, text, from) < parts.len() ==> parts[part_with(parts, text, from)] == PartModel::Text(text),
        forall|k: int| from <= k < part_with(parts, text, from) ==> #[trigger] parts[k] != PartModel::Text(text),
    decreases parts.len() - from,
{
    if from < parts.len() {
        lemma_part_with_is_first(parts, text, from + 1);
    }
}

proof fn lemma_message_with_is_first(msgs: Seq<MessageModel>, p: PromptModel, from: int)
    requires
        0 <= from <= msgs.len(),
    ensures
        ({
            let at = message_with(msgs, placeholder(p), from);
            &&& from <= at <= msgs.len()
            &&& at < msgs.len() ==> waits_at(msgs, p, at, part_with(msgs[at].parts, placeholder(p), 0))
            &&& forall|i: int, k: int| from <= i < at ==> !#[trigger] waits_at(msgs, p, i, k)
        }),
    decreases msgs.len() - from,
{
    if from < msgs.len() {
        lemma_part_with_is_first(msgs[from].parts, placeholder(p), 0);
        lemma_message_with_is_first(msgs, p, from + 1);
        let at = message_with(msgs, placeholder(p), from);
        assert forall|i: int, k: int| from <= i < at implies !#[trigger] waits_at(msgs, p, i, k) by {
            if i == from && waits_at(msgs, p, i, k) {
                assert(msgs[from].parts[k] == PartModel::Text(placeholder(p)));
            }
        }
    }
}

/// Promoting a prompt turns its placeholder, where there is one, into exactly what
/// was typed, in the same place; the message waits no longer and carries what the
/// prompt carries. Nothing else changes.
pub proof fn law_promotion_restores_what_was_typed(msgs: Seq<MessageModel>, p: PromptModel)
    ensures
        promoted(msgs, p).len() == msgs.len(),
        (forall|i: int, k: int| !#[trigger] waits_at(msgs, p, i, k)) ==> promoted(msgs, p) == msgs,
        (exists|i: int, k: int| #[trigger] waits_at(msgs, p, i, k)) ==> exists|i: int, k: int| #[trigger]
            waits_at(msgs, p, i, k) && {
                let m = promoted(msgs, p)[i];
                &&& m.parts[k] == PartModel::Text(p.text)
                &&& !m.queued
                &&& m.role == Role::User
                &&& m.parts == msgs[i].parts.update(k, PartModel::Text(p.text))
                &&& p.attachments.len() > 0 ==> m.attachments == p.attachments
                &&& p.attachments.len() == 0 ==> m.attachments == msgs[i].attachments
                &&& promoted(msgs, p) == msgs.update(i, m)
            },
{
    lemma_message_with_is_first(msgs, p, 0);
    let at = message_with(msgs, placeholder(p), 0);
    if at < msgs.len() {
        let k = part_with(msgs[at].parts, placeholder(p), 0);
        assert(waits_at(msgs, p, at, k));
        assert(promoted(msgs, p)[at] == promoted_message(msgs[at], p));
    } else if exists|i: int, k: int| #[trigger] waits_at(msgs, p, i, k) {
        let (i, k) = choose|i: int, k: int| #[trigger] waits_at(msgs, p, i, k);
        assert(!waits_at(msgs, p, i, k));
    }
}

/// The prompts of a batch can be told apart: no two have the same placeholder, none
/// reads like the placeholder of another, and each stands in at most one place.
pub open spec fn told_apart(msgs: Seq<MessageModel>, batch: Seq<PromptModel>) -> bool {
    &&& forall|a: int, b: int|
        0 <= a < batch.len() && 0 <= b < batch.len() && a != b ==> placeholder(#[trigger] batch[a]) != placeholder(
            #[trigger] batch[b],
        )
    &&& forall|a: int, b: int|
        0 <= a < batch.len() && 0 <= b < batch.len() ==> (#[trigger] batch[a]).text != placeholder(#[trigger] batch[b])
    &&& forall|a: int, i: int, k: int, j: int, l: int|
        0 <= a < batch.len() && #[trigger] waits_at(msgs, batch[a], i, k) && #[trigger] waits_at(msgs, batch[a], j, l)
            ==> i == j && k == l
}

/// What stands in a place of the user's after the batch was promoted.
spec fn is_settled(msgs: Seq<MessageModel>, batch: Seq<PromptModel>, after: Seq<MessageModel>) -> bool {
    &&& after.len() == msgs.len()
    &&& forall|i: int|
        0 <= i < msgs.len() ==> (#[trigger] after[i]).role == msgs[i].role && after[i].parts.len()
            == msgs[i].parts.len()
    &&& forall|a: int, i: int, k: int|
        0 <= a < batch.len() && #[trigger] waits_at(msgs, batch[a], i, k) ==> after[i].parts[k] == PartModel::Text(
            batch[a].text,
        ) && !after[i].queued
    &&& forall|i: int, k: int|
        0 <= i < msgs.len() && 0 <= k < msgs[i].parts.len() && (forall|a: int|
            0 <= a < batch.len() ==> !waits_at(msgs, #[trigger] batch[a], i, k)) ==> #[trigger] after[i].parts[k]
            == msgs[i].parts[k]
}

proof fn lemma_batch_is_settled(msgs: Seq<MessageModel>, batch: Seq<PromptModel>, n: nat)
    requires
        told_apart(msgs, batch),
        n <= batch.len(),
    ensures
        is_settled(msgs, batch.take(n as int), all_promoted(msgs, batch.take(n as int))),
    decreases n,
{
    let now = batch.take(n as int);
    let after = all_promoted(msgs, now);
    if n > 0 {
        lemma_batch_is_settled(msgs, batch, (n - 1) as nat);
        let front = batch.take(n - 1);
        assert(now.drop_last() =~= front);
        let p = batch[n - 1];
        assert(now.last() == p);
        let before = all_promoted(msgs, front);
        law_promotion_restores_what_was_typed(before, p);
        // The prompt waits in the same place as at the beginning.
        assert forall|i: int, k: int| waits_at(before, p, i, k) == #[trigger] waits_at(msgs, p, i, k) by {
            if 0 <= i < msgs.len() && 0 <= k < msgs[i].parts.len() {
                assert(before[i].role == msgs[i].role);
                if exists|a: int| 0 <= a < front.len() && waits_at(msgs, #[trigger] front[a], i, k) {
                    let a = choose|a: int| 0 <= a < front.len() && waits_at(msgs, #[trigger] front[a], i, k);
                    assert(front[a] == batch[a]);
                    assert(before[i].parts[k] == PartModel::Text(front[a].text));
                    assert(placeholder(batch[a]) != placeholder(batch[n - 1]));
                    assert(batch[a].text != placeholder(batch[n - 1]));
                } else {
                    assert(before[i].parts[k] == msgs[i].parts[k]);
                }
            }
        }
        if exists|i: int, k: int| #[trigger] waits_at(before, p, i, k) {
            let (pi, pk) = choose|i: int, k: int| #[trigger]
                waits_at(before, p, i, k) && {
                    let m = promoted(before, p)[i];
                    &&& m.parts[k] == PartModel::Text(p.text)
                    &&& !m.queued
                    &&& m.role == Role::User
                    &&& m.parts == before[i].parts.update(k, PartModel::Text(p.text))
                    &&& p.attachments.len() > 0 ==> m.attachments == p.attachments
                    &&& p.attachments.len() == 0 ==> m.attachments == before[i].attachments
                    &&& promoted(before, p) == before.update(i, m)
                };
            assert(waits_at(msgs, p, pi, pk));
            assert forall|a: int, i: int, k: int|
                0 <= a < now.len() && #[trigger] waits_at(msgs, now[a], i, k) implies after[i].parts[k]
                == PartModel::Text(now[a].text) && !after[i].queued by {
                assert(now[a] == batch[a]);
                if a == n - 1 {
                    assert(i == pi && k == pk);
                } else {
                    assert(front[a] == batch[a]);
                    assert(waits_at(msgs, front[a], i, k));
                    assert(placeholder(batch[a]) != placeholder(batch[n - 1]));
                    assert(!(i == pi && k == pk));
                }
            }
            assert forall|i: int, k: int|
                0 <= i < msgs.len() && 0 <= k < msgs[i].parts.len() && (forall|a: int|
                    0 <= a < now.len() ==> !waits_at(msgs, #[trigger] now[a], i, k)) implies #[trigger] after[i].parts[k]
                == msgs[i].parts[k] by {
                assert(!waits_at(msgs, now[n - 1], i, k));
                assert(!(i == pi && k == pk));
                assert forall|a: int| 0 <= a < front.len() implies !waits_at(msgs, #[trigger] front[a], i, k) by {
                    assert(front[a] == now[a]);
                }
                assert(before[i].parts[k] == msgs[i].parts[k]);
            }
        } else {
            assert forall|i: int, k: int| !#[trigger] waits_at(msgs, p, i, k) by {
                assert(waits_at(before, p, i, k) == waits_at(msgs, p, i, k));
            }
            assert(after == before);
            assert forall|a: int, i: int, k: int|
                0 <= a < now.len() && #[trigger] waits_at(msgs, now[a], i, k) implies after[i].parts[k]
                == PartModel::Text(now[a].text) && !after[i].queued by {
                if a < n - 1 {
                    assert(front[a] == now[a]);
                    assert(waits_at(msgs, front[a], i, k));
                } else {
                    assert(now[a] == p);
                }
            }
            assert forall|i: int, k: int|
                0 <= i < msgs.len() && 0 <= k < msgs[i].parts.len() && (forall|a: int|
                    0 <= a < now.len() ==> !waits_at(msgs, #[trigger] now[a], i, k)) implies #[trigger] after[i].parts[k]
                == msgs[i].parts[k] by {
                assert forall|a: int| 0 <= a < front.len() implies !waits_at(msgs, #[trigger] front[a], i, k) by {
                    assert(front[a] == now[a]);
                }
            }
        }
    }
}

/// After a drain every prompt whose placeholder stood in a message of the user
/// stands there as it was typed, in the same place, and that message waits no
/// longer; no placeholder of the batch is left, and every other part is as it was.
pub proof fn law_drained_prompts_read_as_typed(
    before: TurnState,
    after: TurnState,
    plan: DrainPlan,
    now: Instant,
    cost: u64,
    a: int,
    i: int,
    k: int,
)
    requires
        is_drained(after, before, plan, now, cost),
        told_apart(message_models(before.messages@), prompt_models(before.queued_prompts@)),
        0 <= a < before.queued_prompts@.len(),
        0 <= i < before.messages@.len(),
        0 <= k < before.messages@[i].parts@.len(),
        before.messages@[i].role == Role::User,
    ensures
        ({
            let p = prompt_model(before.queued_prompts@[a]);
            let part = part_model(before.messages@[i].parts@[k]);
            &&& before.messages@.len() <= after.messages@.len() <= before.messages@.len() + 1
            &&& after.messages@[i].parts@.len() == before.messages@[i].parts@.len()
            &&& after.messages@[i].role == Role::User
            &&& part == PartModel::Text(placeholder(p)) ==> part_model(after.messages@[i].parts@[k])
                == PartModel::Text(before.queued_prompts@[a].text@) && !after.messages@[i].queued
            &&& part_model(after.messages@[i].parts@[k]) != PartModel::Text(placeholder(p))
            &&& (forall|b: int|
                0 <= b < before.queued_prompts@.len() ==> part != PartModel::Text(
                    placeholder(prompt_model(#[trigger] before.queued_prompts@[b])),
                )) ==> part_model(after.messages@[i].parts@[k]) == part
        }),
{
    let msgs = message_models(before.messages@);
    let batch = prompt_models(before.queued_prompts@);
    lemma_batch_is_settled(msgs, batch, batch.len());
    assert(batch.take(batch.len() as int) =~= batch);
    let settled = all_promoted(msgs, batch);
    let p = prompt_model(before.queued_prompts@[a]);
    assert(batch[a] == p);
    assert(msgs[i] == message_model(before.messages@[i]));
    assert(msgs[i].parts[k] == part_model(before.messages@[i].parts@[k]));
    let done = message_models(after.messages@);
    assert(done.len() == after.messages@.len());
    assert(done[i] == settled[i]);
    assert(done[i] == message_model(after.messages@[i]));
    assert(settled[i].role == msgs[i].role);
    assert(done[i].parts[k] == part_model(after.messages@[i].parts@[k]));
    if waits_at(msgs, p, i, k) {
        assert(waits_at(msgs, batch[a], i, k));
        assert(batch[a].text != placeholder(batch[a]));
    } else if exists|b: int| 0 <= b < batch.len() && waits_at(msgs, #[trigger] batch[b], i, k) {
        let b = choose|b: int| 0 <= b < batch.len() && waits_at(msgs, #[trigger] batch[b], i, k);
        assert(settled[i].parts[k] == PartModel::Text(batch[b].text));
        assert(batch[b].text != placeholder(batch[a]));
        assert(batch[b] == prompt_model(before.queued_prompts@[b]));
    } else {
        assert(settled[i].parts[k] == msgs[i].parts[k]);
    }
}

/// The handed-out texts keep the order of the queue: before each message stand the
/// messages that were typed before it, and before each command the commands.
pub proof fn law_prompts_keep_their_order(batch: Seq<PromptModel>, k: int)
    requires
        0 <= k < batch.len(),
    ensures
        batch[k].is_meta ==> commands_of(batch.take(k)).len() < commands_of(batch).len() && commands_of(
            batch,
        )[commands_of(batch.take(k)).len() as int] == batch[k].text,
        !batch[k].is_meta ==> prompts_of(batch.take(k)).len() < prompts_of(batch).len() && prompts_of(
            batch,
        )[prompts_of(batch.take(k)).len() as int] == batch[k].text,
    decreases batch.len(),
{
    if k < batch.len() - 1 {
        law_prompts_keep_their_order(batch.drop_last(), k);
        assert(batch.drop_last().take(k) =~= batch.take(k));
    } else {
        assert(batch.take(k) =~= batch.drop_last());
    }
}

/// Where a message was among the queued prompts, one turn begins: an empty answer
/// is staged behind everything, it is the one that is streamed into, and the turn
/// counts as one of the user's. With commands alone nothing begins.
pub proof fn law_one_answer_is_staged(before: TurnState, after: TurnState, plan: DrainPlan, now: Instant, cost: u64)
    requires
        is_drained(after, before, plan, now, cost),
        before.total_user_turns < usize::MAX,
    ensures
        (exists|k: int| 0 <= k < before.queued_prompts@.len() && !(#[trigger] before.queued_prompts@[k]).is_meta) ==> {
            &&& after.messages@.len() == before.messages@.len() + 1
            &&& after.messages@.last().role == Role::Assistant
            &&& after.messages@.last().parts@.len() == 1
            &&& part_model(after.messages@.last().parts@[0]) == PartModel::Text(""@)
            &&& after.is_streaming
            &&& after.streaming_assistant_idx == Some((after.messages@.len() - 1) as usize)
            &&& plan.stream_into == after.streaming_assistant_idx
            &&& after.total_user_turns == before.total_user_turns + 1
            &&& after.turn_started_at == Some(now)
            &&& after.streaming_started_at == Some(now)
            &&& after.turn_start_cost == cost
        },
        (forall|k: int| 0 <= k < before.queued_prompts@.len() ==> (#[trigger] before.queued_prompts@[k]).is_meta) ==> {
            &&& after.messages@.len() == before.messages@.len()
            &&& plan.stream_into is None
            &&& after.is_streaming == before.is_streaming
            &&& after.total_user_turns == before.total_user_turns
        },
        after.queued_prompts@.len() == 0,
{
    let msgs = message_models(before.messages@);
    let batch = prompt_models(before.queued_prompts@);
    law_promotion_keeps_the_messages(msgs, batch);
    assert(message_models(after.messages@).len() == after.messages@.len());
    if exists|k: int| 0 <= k < before.queued_prompts@.len() && !(#[trigger] before.queued_prompts@[k]).is_meta {
        let k = choose|k: int| 0 <= k < before.queued_prompts@.len() && !(#[trigger] before.queued_prompts@[k]).is_meta;
        assert(!batch[k].is_meta);
        law_prompts_keep_their_order(batch, k);
        assert(texts(plan.prompts@).len() == plan.prompts@.len());
        let last = after.messages@.len() - 1;
        assert(message_models(after.messages@)[last] == message_model(after.messages@[last]));
        assert(message_model(after.messages@[last]).parts.len() == after.messages@[last].parts@.len());
        assert(message_model(after.messages@[last]).parts[0] == part_model(after.messages@[last].parts@[0]));
    }
    if forall|k: int| 0 <= k < before.queued_prompts@.len() ==> (#[trigger] before.queued_prompts@[k]).is_meta {
        assert forall|k: int| 0 <= k < batch.len() implies (#[trigger] batch[k]).is_meta by {
            assert(before.queued_prompts@[k].is_meta);
        }
        lemma_commands_alone(batch);
        assert(texts(plan.prompts@).len() == plan.prompts@.len());
    }
}

proof fn lemma_commands_alone(batch: Seq<PromptModel>)
    requires
        forall|k: int| 0 <= k < batch.len() ==> (#[trigger] batch[k]).is_meta,
    ensures
        prompts_of(batch).len() == 0,
    decreases batch.len(),
{
    if batch.len() > 0 {
        assert(batch.last() == batch[batch.len() - 1]);
        let front = batch.drop_last();
        assert forall|k: int| 0 <= k < front.len() implies (#[trigger] front[k]).is_meta by {
            assert(front[k] == batch[k]);
        }
        lemma_commands_alone(front);
    }
}

/// The first prompt that is handed out decides the route.
pub proof fn law_the_first_prompt_decides_the_route(plan: DrainPlan, r: String)
    requires
        call_ensures(route_text, (&plan,), r),
    ensures
        plan.prompts@.len() > 0 ==> r@ == plan.prompts@.first()@,
        plan.prompts@.len() == 0 ==> r@.len() == 0,
{
}

} // verus!
