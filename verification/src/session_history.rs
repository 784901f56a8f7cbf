//! Prompts from earlier sessions, and sessions that were carried over.
use vstd::prelude::*;

use crate::json::{get_array, get_str, list_member, text_member, Json};
use crate::order::{rank_order, sort_stable, sorted, Ranked};
use crate::slicing::{group_texts, has_prefix, opt_text, starts_with, texts, trim, trimmed};
use crate::text::same_text;
use crate::transcript::{
    group_models, message_models, plain_message, ChatMessage, MessageModel, PartModel, Role,
};

verus! {

broadcast use {group_texts, group_models};

/// How many sessions are looked into.
pub const MAX_SESSIONS: usize = 10;

/// How many prompts are taken from each.
pub const MAX_PROMPTS_PER_SESSION: usize = 50;

// ── prompts of one session ──────────────────────────────────────────────

/// The part is the mark left by a compaction.
pub open spec fn marks_boundary(part: Json) -> bool {
    text_member(part, "type"@) == Some("compactBoundary"@) || part.member("compactBoundary"@) is Some
}

/// Some part is the mark left by a compaction.
pub open spec fn any_boundary(parts: Seq<Json>) -> bool {
    exists|i: int| 0 <= i < parts.len() && marks_boundary(#[trigger] parts[i])
}

/// The prompt in a part: its trimmed text, unless it is blank or a command.
pub open spec fn part_prompt(part: Json) -> Option<Seq<char>> {
    match text_member(part, "text"@) {
        None => None,
        Some(t) => if trimmed(t).len() == 0 || has_prefix(trimmed(t), "/"@) {
            None
        } else {
            Some(trimmed(t))
        },
    }
}

/// The prompts of parts.
pub open spec fn part_prompts(parts: Seq<Json>) -> Seq<Seq<char>>
    decreases parts.len(),
{
    if parts.len() == 0 {
        Seq::empty()
    } else {
        match part_prompt(parts.last()) {
            Some(p) => part_prompts(parts.drop_last()).push(p),
            None => part_prompts(parts.drop_last()),
        }
    }
}

/// The prompts of a message: those of the user, without compaction marks.
pub open spec fn message_prompts(msg: Json) -> Seq<Seq<char>> {
    if text_member(msg, "role"@) != Some("user"@) {
        Seq::empty()
    } else {
        match list_member(msg, "parts"@) {
            None => Seq::empty(),
            Some(parts) => if any_boundary(parts) {
                Seq::empty()
            } else {
                part_prompts(parts)
            },
        }
    }
}

/// The prompts of messages.
pub open spec fn all_prompts(msgs: Seq<Json>) -> Seq<Seq<char>>
    decreases msgs.len(),
{
    if msgs.len() == 0 {
        Seq::empty()
    } else {
        all_prompts(msgs.drop_last()) + message_prompts(msgs.last())
    }
}

/// The prompts of a session, the oldest first.
pub open spec fn session_prompts(session: Json) -> Seq<Seq<char>> {
    match list_member(session, "messages"@) {
        None => Seq::empty(),
        Some(msgs) => all_prompts(msgs),
    }
}

/// At most the first `max`.
pub open spec fn first_prompts(all: Seq<Seq<char>>, max: nat) -> Seq<Seq<char>> {
    if all.len() <= max {
        all
    } else {
        all.take(max as int)
    }
}

fn is_boundary_part(part: &Json) -> (r: bool)
    ensures
        r == marks_boundary(*part),
{
    let typed = match get_str(part, "type") {
        Some(t) => same_text(t, "compactBoundary"),
        None => false,
    };
    typed || part.get("compactBoundary").is_some()
}

fn has_boundary_part(parts: &Vec<Json>) -> (r: bool)
    ensures
        r == any_boundary(parts@),
{
    let mut i: usize = 0;
    while i < parts.len()
        invariant
            i <= parts@.len(),
            forall|j: int| 0 <= j < i ==> !marks_boundary(#[trigger] parts@[j]),
        decreases parts@.len() - i,
    {
        if is_boundary_part(&parts[i]) {
            return true;
        }
        i += 1;
    }
    false
}

fn prompt_of_part(part: &Json) -> (r: Option<String>)
    ensures
        opt_text(r) == part_prompt(*part),
{
    match get_str(part, "text") {
        None => None,
        Some(t) => {
            let t = trim(t);
            if t.as_str().is_empty() || starts_with(t.as_str(), "/") {
                None
            } else {
                Some(t)
            }
        },
    }
}

fn prompts_of_message(msg: &Json) -> (r: Vec<String>)
    ensures
        texts(r@) == message_prompts(*msg),
{
    let mut out: Vec<String> = Vec::new();
    assert(texts(out@) =~= Seq::empty());
    let from_user = match get_str(msg, "role") {
        Some(role) => same_text(role, "user"),
        None => false,
    };
    if !from_user {
        return out;
    }
    let parts = match get_array(msg, "parts") {
        Some(parts) => parts,
        None => {
            return out;
        },
    };
    if has_boundary_part(parts) {
        return out;
    }
    let mut i: usize = 0;
    assert(texts(out@) =~= part_prompts(parts@.take(0)));
    while i < parts.len()
        invariant
            i <= parts@.len(),
            texts(out@) == part_prompts(parts@.take(i as int)),
        decreases parts@.len() - i,
    {
        assert(parts@.take(i + 1).drop_last() =~= parts@.take(i as int));
        if let Some(p) = prompt_of_part(&parts[i]) {
            out.push(p);
        }
        i += 1;
    }
    assert(parts@.take(i as int) =~= parts@);
    out
}

/// The prompts of a saved session, the oldest first, at most `max_prompts` of
/// them. Compaction marks, blank texts and commands are skipped.
pub fn extract_prompts_from_session_json(session: &Json, max_prompts: usize) -> (r: Vec<String>)
    ensures
        texts(r@) == first_prompts(session_prompts(*session), max_prompts as nat),
{
    let mut out: Vec<String> = Vec::new();
    if max_prompts == 0 {
        assert(texts(out@) =~= first_prompts(session_prompts(*session), 0));
        return out;
    }
    let messages = match get_array(session, "messages") {
        Some(m) => m,
        None => {
            assert(texts(out@) =~= first_prompts(session_prompts(*session), max_prompts as nat));
            return out;
        },
    };
    let ghost all = all_prompts(messages@);
    let mut i: usize = 0;
    assert(texts(out@) =~= all_prompts(messages@.take(0)));
    while i < messages.len()
        invariant
            i <= messages@.len(),
            all == all_prompts(messages@),
            all == session_prompts(*session),
            out@.len() < max_prompts,
            texts(out@) == all_prompts(messages@.take(i as int)),
        decreases messages@.len() - i,
    {
        assert(messages@.take(i + 1).drop_last() =~= messages@.take(i as int));
        let found = prompts_of_message(&messages[i]);
        let ghost before = texts(out@);
        let mut k: usize = 0;
        assert(before + texts(found@).take(0) =~= before);
        while k < found.len()
            invariant
                i < messages@.len(),
                k <= found@.len(),
                all == all_prompts(messages@),
                all == session_prompts(*session),
                before + texts(found@) == all_prompts(messages@.take(i + 1)),
                out@.len() < max_prompts,
                texts(out@) == before + texts(found@).take(k as int),
            decreases found@.len() - k,
        {
            out.push(found[k].clone());
            assert(texts(out@) =~= before + texts(found@).take(k + 1));
            k += 1;
            if out.len() >= max_prompts {
                proof {
                    lemma_prompts_of_prefix(messages@, i + 1);
                    assert(texts(out@).len() == max_prompts);
                    assert(texts(out@) =~= all.take(max_prompts as int));
                    if all.len() == max_prompts {
                        assert(all.take(max_prompts as int) =~= all);
                    }
                }
                return out;
            }
        }
        assert(texts(found@).take(k as int) =~= texts(found@));
        i += 1;
    }
    assert(messages@.take(i as int) =~= messages@);
    out
}

proof fn lemma_prompts_of_prefix(msgs: Seq<Json>, n: int)
    requires
        0 <= n <= msgs.len(),
    ensures
        all_prompts(msgs.take(n)).len() <= all_prompts(msgs).len(),
        all_prompts(msgs.take(n)) == all_prompts(msgs).take(all_prompts(msgs.take(n)).len() as int),
    decreases msgs.len() - n,
{
    if n == msgs.len() {
        assert(msgs.take(n) =~= msgs);
        assert(all_prompts(msgs).take(all_prompts(msgs).len() as int) =~= all_prompts(msgs));
    } else {
        lemma_prompts_of_prefix(msgs, n + 1);
        assert(msgs.take(n + 1).drop_last() =~= msgs.take(n));
        let shorter = all_prompts(msgs.take(n));
        let longer = all_prompts(msgs.take(n + 1));
        assert(longer =~= shorter + message_prompts(msgs[n]));
        assert(longer.take(shorter.len() as int) =~= shorter);
        assert(all_prompts(msgs).take(shorter.len() as int) =~= longer.take(shorter.len() as int));
    }
}

/// No prompt of the history is blank or a command.
pub proof fn law_history_holds_no_commands(msgs: Seq<Json>, i: int)
    requires
        0 <= i < all_prompts(msgs).len(),
    ensures
        all_prompts(msgs)[i].len() > 0,
        !has_prefix(all_prompts(msgs)[i], "/"@),
    decreases msgs.len(),
{
    if msgs.len() > 0 {
        let before = all_prompts(msgs.drop_last());
        if i < before.len() {
            law_history_holds_no_commands(msgs.drop_last(), i);
        } else {
            let found = message_prompts(msgs.last());
            match list_member(msgs.last(), "parts"@) {
                Some(parts) => {
                    lemma_part_prompts(parts, i - before.len());
                },
                None => {},
            }
        }
    }
}

proof fn lemma_part_prompts(parts: Seq<Json>, i: int)
    requires
        0 <= i < part_prompts(parts).len(),
    ensures
        part_prompts(parts)[i].len() > 0,
        !has_prefix(part_prompts(parts)[i], "/"@),
    decreases parts.len(),
{
    if parts.len() > 0 {
        if i < part_prompts(parts.drop_last()).len() {
            lemma_part_prompts(parts.drop_last(), i);
        }
    }
}

// ── several sessions ────────────────────────────────────────────────────

/// A session file: when it was changed, and its name without the suffix.
#[derive(Debug, Clone)]
pub struct SessionFile {
    pub modified: u128,
    pub stem: Option<String>,
    pub path: String,
}

impl Ranked for SessionFile {
    open spec fn before(&self, other: &Self) -> bool {
        self.modified > other.modified
    }

    fn is_before(&self, other: &Self) -> (r: bool) {
        self.modified > other.modified
    }
}

/// Put session files into the order in which they are read: the newest first.
pub fn newest_first(files: Vec<SessionFile>) -> (r: Vec<SessionFile>)
    ensures
        r@ == sorted(files@, rank_order::<SessionFile>()),
{
    sort_stable(files)
}

/// The file is that of the session that is open.
pub open spec fn is_current(stem: Option<String>, current: Option<String>) -> bool {
    match (stem, current) {
        (Some(s), Some(c)) => s@ == c@,
        _ => false,
    }
}

/// Whether the file is that of the session that is open; it is skipped.
pub fn is_current_session(stem: &Option<String>, current: &Option<String>) -> (r: bool)
    ensures
        r == is_current(*stem, *current),
{
    match (stem, current) {
        (Some(s), Some(c)) => same_text(s.as_str(), c.as_str()),
        _ => false,
    }
}

/// What is collected, with the prompts of an older session in front.
pub open spec fn with_older(collected: Seq<Seq<char>>, session: Json) -> Seq<Seq<char>> {
    first_prompts(session_prompts(session), MAX_PROMPTS_PER_SESSION as nat) + collected
}

/// The prompts gathered from earlier sessions.
#[derive(Debug)]
pub struct PriorPrompts {
    pub collected: Vec<String>,
    pub loaded: usize,
}

impl PriorPrompts {
    pub fn new() -> (r: Self)
        ensures
            r.collected@.len() == 0,
            r.loaded == 0,
    {
        PriorPrompts { collected: Vec::new(), loaded: 0 }
    }

    /// Whether enough sessions were read.
    pub fn is_full(&self) -> (r: bool)
        ensures
            r == (self.loaded >= MAX_SESSIONS),
    {
        self.loaded >= MAX_SESSIONS
    }

    /// Take the prompts of the next older session: they go in front, so that all
    /// prompts stand in the order in which they were typed.
    pub fn add_session(&mut self, session: &Json)
        requires
            old(self).loaded < MAX_SESSIONS,
        ensures
            final(self).loaded == old(self).loaded + 1,
            texts(final(self).collected@) == with_older(texts(old(self).collected@), *session),
    {
        let mut found = extract_prompts_from_session_json(session, MAX_PROMPTS_PER_SESSION);
        found.append(&mut self.collected);
        self.collected = found;
        self.loaded = self.loaded + 1;
    }
}

// ── exported sessions ───────────────────────────────────────────────────

/// A message of an exported session. What is no answer of the assistant counts
/// as the user's.
pub open spec fn exported_message(msg: Json) -> MessageModel {
    let text = match text_member(msg, "content"@) {
        Some(t) => t,
        None => ""@,
    };
    plain_message(
        if text_member(msg, "role"@) == Some("assistant"@) {
            Role::Assistant
        } else {
            Role::User
        },
        seq![PartModel::Text(text)],
    )
}

/// The messages of an exported session.
pub open spec fn exported_messages(export: Json) -> Seq<MessageModel> {
    match list_member(export, "messages"@) {
        Some(msgs) => msgs.map_values(|m: Json| exported_message(m)),
        None => Seq::empty(),
    }
}

fn message_from_export(msg: &Json) -> (r: ChatMessage)
    ensures
        crate::transcript::message_model(r) == exported_message(*msg),
{
    let text = match get_str(msg, "content") {
        Some(t) => t,
        None => "",
    };
    let from_assistant = match get_str(msg, "role") {
        Some(role) => same_text(role, "assistant"),
        None => false,
    };
    if from_assistant {
        ChatMessage::assistant(text.to_owned())
    } else {
        ChatMessage::user(text.to_owned())
    }
}

/// The messages of an exported session.
pub fn messages_from_export(export: &Json) -> (r: Vec<ChatMessage>)
    ensures
        message_models(r@) == exported_messages(*export),
{
    let ghost goal = exported_messages(*export);
    let mut out: Vec<ChatMessage> = Vec::new();
    if let Some(msgs) = get_array(export, "messages") {
        let mut i: usize = 0;
        assert(message_models(out@) =~= goal.take(0));
        while i < msgs.len()
            invariant
                i <= msgs@.len(),
                goal == msgs@.map_values(|m: Json| exported_message(m)),
                message_models(out@) == goal.take(i as int),
            decreases msgs@.len() - i,
        {
            let m = message_from_export(&msgs[i]);
            assert(crate::transcript::message_model(m) == goal[i as int]);
            out.push(m);
            assert(goal.take(i + 1) =~= goal.take(i as int).push(goal[i as int]));
            i += 1;
        }
        assert(goal.take(i as int) =~= goal);
    } else {
        assert(message_models(out@) =~= goal);
    }
    out
}

proof fn lemma_part_prompts_has(parts: Seq<Json>, k: int)
    requires
        0 <= k < parts.len(),
        part_prompt(parts[k]) is Some,
    ensures
        part_prompts(parts).contains(part_prompt(parts[k])->0),
    decreases parts.len(),
{
    let front = parts.drop_last();
    let p = part_prompt(parts[k])->0;
    if k < front.len() {
        lemma_part_prompts_has(front, k);
        let i = choose|i: int| 0 <= i < part_prompts(front).len() && part_prompts(front)[i] == p;
        assert(part_prompts(parts)[i] == p);
    } else {
        assert(part_prompts(parts)[part_prompts(front).len() as int] == p);
    }
}

proof fn lemma_all_prompts_has(msgs: Seq<Json>, i: int, p: Seq<char>)
    requires
        0 <= i < msgs.len(),
        message_prompts(msgs[i]).contains(p),
    ensures
        all_prompts(msgs).contains(p),
    decreases msgs.len(),
{
    let front = msgs.drop_last();
    if i < front.len() {
        lemma_all_prompts_has(front, i, p);
        let j = choose|j: int| 0 <= j < all_prompts(front).len() && all_prompts(front)[j] == p;
        assert(all_prompts(msgs)[j] == p);
    } else {
        let j = choose|j: int| 0 <= j < message_prompts(msgs[i]).len() && message_prompts(msgs[i])[j] == p;
        assert(all_prompts(msgs)[all_prompts(front).len() + j] == p);
    }
}

/// Whatever the user wrote is in the history, without the space around it, unless it is
/// blank or a command, or stands in the message that marks a compaction.
pub proof fn law_every_prompt_is_remembered(msgs: Seq<Json>, i: int, parts: Seq<Json>, k: int, text: Seq<char>)
    requires
        0 <= i < msgs.len(),
        text_member(msgs[i], "role"@) == Some("user"@),
        list_member(msgs[i], "parts"@) == Some(parts),
        forall|j: int|
            0 <= j < parts.len() ==> text_member(#[trigger] parts[j], "type"@) != Some("compactBoundary"@)
                && parts[j].member("compactBoundary"@) is None,
        0 <= k < parts.len(),
        text_member(parts[k], "text"@) == Some(text),
        trimmed(text).len() > 0,
        !has_prefix(trimmed(text), "/"@),
    ensures
        all_prompts(msgs).contains(trimmed(text)),
{
    lemma_part_prompts_has(parts, k);
    lemma_all_prompts_has(msgs, i, trimmed(text));
}

/// The prompts of a longer session are those of its first half, then those of its
/// second; what the assistant said is no prompt.
pub proof fn law_history_is_in_order(first: Seq<Json>, second: Seq<Json>, answer: Json)
    requires
        text_member(answer, "role"@) != Some("user"@),
    ensures
        all_prompts(first + second) == all_prompts(first) + all_prompts(second),
        all_prompts(first.push(answer)) == all_prompts(first),
    decreases second.len(),
{
    assert(first.push(answer).drop_last() =~= first);
    assert(all_prompts(first) + Seq::<Seq<char>>::empty() =~= all_prompts(first));
    if second.len() == 0 {
        assert(first + second =~= first);
    } else {
        law_history_is_in_order(first, second.drop_last(), answer);
        assert((first + second).drop_last() =~= first + second.drop_last());
        assert((first + second).last() == second.last());
        assert(all_prompts(first + second) =~= all_prompts(first) + all_prompts(second));
    }
}

/// The oldest prompts of a session are taken, and all of them where they are few.
pub proof fn law_few_prompts_are_all_taken(all: Seq<Seq<char>>, max: nat)
    ensures
        first_prompts(all, max).len() == (if all.len() <= max {
            all.len()
        } else {
            max
        }),
        forall|i: int| 0 <= i < first_prompts(all, max).len() ==> #[trigger] first_prompts(all, max)[i] == all[i],
{
}

/// Every message of an export is taken over: its place, who said it, and its words.
pub proof fn law_exports_keep_every_message(export: Json, msgs: Seq<Json>, i: int, text: Seq<char>)
    requires
        list_member(export, "messages"@) == Some(msgs),
        0 <= i < msgs.len(),
        text_member(msgs[i], "content"@) == Some(text),
    ensures
        exported_messages(export).len() == msgs.len(),
        exported_messages(export)[i].parts == seq![PartModel::Text(text)],
        text_member(msgs[i], "role"@) == Some("assistant"@) <==> exported_messages(export)[i].role == Role::Assistant,
{
}

/// The latest session comes first, and no session is lost.
pub proof fn law_latest_session_first(files: Seq<SessionFile>, i: int, j: int)
    requires
        0 <= i < j < files.len(),
    ensures
        sorted(files, rank_order::<SessionFile>())[i].modified >= sorted(files, rank_order::<SessionFile>())[j].modified,
        sorted(files, rank_order::<SessionFile>()).to_multiset() == files.to_multiset(),
{
    let before = rank_order::<SessionFile>();
    assert(crate::order::is_weak_order(before));
    crate::order::law_sorted_is_in_order(files, before);
    crate::order::law_sorted_is_a_permutation(files, before);
    assert(!before(sorted(files, before)[j], sorted(files, before)[i]));
}

/// The prompts of an older session come before those that were collected: these stay as
/// they are, at the end, and at most fifty are added.
pub proof fn law_older_prompts_come_first(collected: Seq<Seq<char>>, session: Json, i: int)
    ensures
        with_older(collected, session).len() <= collected.len() + 50,
        with_older(collected, session).skip(with_older(collected, session).len() - collected.len()) == collected,
        0 <= i < session_prompts(session).len() && i < 50 ==> with_older(collected, session)[i] == session_prompts(
            session,
        )[i],
{
    let all = with_older(collected, session);
    assert(all.skip(all.len() - collected.len()) =~= collected);
}

/// A session is the current one only where both are named, and alike.
pub proof fn law_only_its_own_name_makes_a_session_current(stem: Option<String>, current: Option<String>)
    ensures
        is_current(stem, current) ==> stem is Some && current is Some && stem->0@ == current->0@,
        stem is Some && current is Some && stem->0@ == current->0@ ==> is_current(stem, current),
{
}

} // verus!
