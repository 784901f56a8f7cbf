//! Welcoming the user back with a recap.
use vstd::prelude::*;

use crate::session_recap::{
    generate_recap, recap, recap_model, recap_models, RecapMessage, RecapModel, AWAY_THRESHOLD_SECS,
};
use crate::slicing::{group_texts, has_text, occurs_at, opt_text, texts};
use crate::text::{cat4, chars_of, decimal, decimal_text, text_between};
use crate::time::Instant;
use crate::transcript::{
    message_model, message_models, part_model, part_models, ChatMessage, MessageModel, MessagePart, PartModel, Role,
    ToolInput, ToolStatus,
};

verus! {

broadcast use group_texts;

/// The first text of a message that is not empty, cut to 200 characters.
pub open spec fn preview_of(parts: Seq<PartModel>, from: int) -> Seq<char>
    decreases parts.len() - from,
{
    if from < 0 || from >= parts.len() {
        Seq::empty()
    } else {
        match parts[from] {
            PartModel::Text(t) => if t.len() > 200 {
                t.take(200)
            } else if t.len() > 0 {
                t
            } else {
                preview_of(parts, from + 1)
            },
            _ => preview_of(parts, from + 1),
        }
    }
}

/// The names of the tools that a message calls.
pub open spec fn tools_of(parts: Seq<PartModel>) -> Seq<Seq<char>>
    decreases parts.len(),
{
    if parts.len() == 0 {
        Seq::empty()
    } else {
        match parts.last() {
            PartModel::Tool(t) => tools_of(parts.drop_last()).push(t.kind.name()),
            _ => tools_of(parts.drop_last()),
        }
    }
}

/// The file that a tool call changes.
pub open spec fn changed_file(input: ToolInput) -> Option<Seq<char>> {
    match input {
        ToolInput::Edit { file_path, .. } => Some(file_path@),
        ToolInput::Write { file_path, .. } => Some(file_path@),
        ToolInput::MultiEdit { file_path, .. } => Some(file_path@),
        ToolInput::NotebookEdit { path } => Some(path@),
        _ => None,
    }
}

/// The files that a message changes.
pub open spec fn files_of(parts: Seq<PartModel>) -> Seq<Seq<char>>
    decreases parts.len(),
{
    if parts.len() == 0 {
        Seq::empty()
    } else {
        let before = files_of(parts.drop_last());
        match parts.last() {
            PartModel::Tool(t) => match changed_file(t.input) {
                Some(f) => before.push(f),
                None => before,
            },
            _ => before,
        }
    }
}

/// A tool call of the message failed.
pub open spec fn any_failed(parts: Seq<PartModel>) -> bool {
    exists|i: int|
        0 <= i < parts.len() && (#[trigger] parts[i]) is Tool && parts[i]->Tool_0.status == ToolStatus::Failed
}

/// What a message says for the recap.
pub open spec fn recap_of(m: MessageModel) -> RecapModel {
    RecapModel {
        is_assistant: m.role == Role::Assistant,
        tool_calls: tools_of(m.parts),
        had_error: any_failed(m.parts),
        files_changed: files_of(m.parts),
        text_preview: preview_of(m.parts, 0),
    }
}

fn preview(parts: &Vec<MessagePart>) -> (r: String)
    ensures
        r@ == preview_of(part_models(parts@), 0),
{
    let ghost all = part_models(parts@);
    let mut i: usize = 0;
    while i < parts.len()
        invariant
            i <= parts@.len(),
            all == part_models(parts@),
            preview_of(all, 0) == preview_of(all, i as int),
        decreases parts@.len() - i,
    {
        assert(all[i as int] == part_model(parts@[i as int]));
        if let MessagePart::Text(t) = &parts[i] {
            if !t.as_str().is_empty() {
                let cs = chars_of(t.as_str());
                if cs.len() > 200 {
                    assert(cs@.subrange(0, 200) =~= t@.take(200));
                    return text_between(&cs, 0, 200);
                }
                return t.clone();
            }
        }
        i += 1;
    }
    String::new()
}

fn file_changed(input: &ToolInput) -> (r: Option<String>)
    ensures
        opt_text(r) == changed_file(*input),
{
    match input {
        ToolInput::Edit { file_path, .. } => Some(file_path.clone()),
        ToolInput::Write { file_path, .. } => Some(file_path.clone()),
        ToolInput::MultiEdit { file_path, .. } => Some(file_path.clone()),
        ToolInput::NotebookEdit { path } => Some(path.clone()),
        _ => None,
    }
}

/// Summarise a message for the recap.
pub fn summarize(m: &ChatMessage) -> (r: RecapMessage)
    ensures
        recap_model(r) == recap_of(message_model(*m)),
{
    let ghost all = part_models(m.parts@);
    let mut tool_calls: Vec<String> = Vec::new();
    let mut files_changed: Vec<String> = Vec::new();
    let mut had_error = false;
    let mut i: usize = 0;
    assert(texts(tool_calls@) =~= tools_of(all.take(0)));
    assert(texts(files_changed@) =~= files_of(all.take(0)));
    while i < m.parts.len()
        invariant
            i <= m.parts@.len(),
            all == part_models(m.parts@),
            texts(tool_calls@) == tools_of(all.take(i as int)),
            texts(files_changed@) == files_of(all.take(i as int)),
            had_error == (exists|k: int|
                0 <= k < i && (#[trigger] all[k]) is Tool && all[k]->Tool_0.status == ToolStatus::Failed),
        decreases m.parts@.len() - i,
    {
        assert(all.take(i + 1).drop_last() =~= all.take(i as int));
        assert(all.take(i + 1).last() == part_model(m.parts@[i as int]));
        assert(all[i as int] == part_model(m.parts@[i as int]));
        if let MessagePart::Tool(t) = &m.parts[i] {
            tool_calls.push(t.kind.label().to_owned());
            if let Some(f) = file_changed(&t.input) {
                files_changed.push(f);
            }
            if t.status == ToolStatus::Failed {
                had_error = true;
            }
        }
        i += 1;
    }
    assert(all.take(i as int) =~= all);
    RecapMessage {
        is_assistant: m.role == Role::Assistant,
        tool_calls,
        had_error,
        files_changed,
        text_preview: preview(&m.parts),
    }
}

/// What is remembered of the user's last visit.
#[derive(Debug)]
pub struct AwayState {
    pub away_recap: Option<String>,
    pub last_user_activity_at: Instant,
    pub interaction_message_idx: usize,
    pub idle_return_shown: bool,
}

/// The messages since the last visit, as the recap sees them.
pub open spec fn since_last_visit(msgs: Seq<MessageModel>, index: nat) -> Seq<RecapModel> {
    let start = if index <= msgs.len() {
        index
    } else {
        msgs.len()
    };
    msgs.skip(start as int).map_values(|m: MessageModel| recap_of(m))
}

/// The banner for a user who was away long enough, where there is something to
/// tell.
pub open spec fn away_banner(s: AwayState, msgs: Seq<MessageModel>, now: Instant) -> Option<Seq<char>> {
    let away_secs = now.since(s.last_user_activity_at) / 1_000_000_000;
    if away_secs < AWAY_THRESHOLD_SECS || s.idle_return_shown {
        None
    } else {
        match recap(since_last_visit(msgs, s.interaction_message_idx as nat)) {
            None => None,
            Some(text) => Some(
                text + "\n(away "@ + decimal(away_secs / 60) + "m · Esc to dismiss)"@,
            ),
        }
    }
}

fn summarize_since(messages: &[ChatMessage], index: usize) -> (r: Vec<RecapMessage>)
    ensures
        recap_models(r@) == since_last_visit(message_models(messages@), index as nat),
{
    let start: usize = if index <= messages.len() {
        index
    } else {
        messages.len()
    };
    let ghost goal = since_last_visit(message_models(messages@), index as nat);
    let mut out: Vec<RecapMessage> = Vec::new();
    let mut i: usize = start;
    assert(recap_models(out@) =~= goal.take(0));
    while i < messages.len()
        invariant
            start <= i <= messages@.len(),
            goal == message_models(messages@).skip(start as int).map_values(|m: MessageModel| recap_of(m)),
            recap_models(out@) == goal.take(i - start),
        decreases messages@.len() - i,
    {
        let ghost before = out@;
        let m = summarize(&messages[i]);
        assert(recap_model(m) == goal[i - start]);
        out.push(m);
        assert(recap_models(out@) =~= recap_models(before).push(goal[i - start]));
        assert(goal.take(i + 1 - start) =~= goal.take(i - start).push(goal[i - start]));
        i += 1;
    }
    assert(goal.take(i - start) =~= goal);
    out
}

/// The state after a visit: what happened since the last one is told, and this one is
/// remembered.
pub open spec fn is_visit(after: AwayState, before: AwayState, msgs: Seq<MessageModel>, now: Instant) -> bool {
    &&& opt_text(after.away_recap) == away_banner(before, msgs, now)
    &&& after.last_user_activity_at == now
    &&& after.interaction_message_idx == msgs.len()
    &&& !after.idle_return_shown
}

/// The user submits a prompt: show what happened while they were away, and
/// remember this visit.
pub fn handle_submit(s: &mut AwayState, messages: &[ChatMessage], now: Instant)
    ensures
        is_visit(*final(s), *old(s), message_models(messages@), now),
{
    s.away_recap = None;
    let away = now.duration_since(s.last_user_activity_at);
    if away.as_secs() >= AWAY_THRESHOLD_SECS && !s.idle_return_shown {
        let since = summarize_since(messages, s.interaction_message_idx);
        if let Some(recap) = generate_recap(since.as_slice()) {
            s.away_recap = Some(
                cat4(
                    recap.as_str(),
                    "\n(away ",
                    decimal_text(away.as_secs() / 60).as_str(),
                    "m · Esc to dismiss)",
                ),
            );
        }
    }
    s.last_user_activity_at = now;
    s.interaction_message_idx = messages.len();
    s.idle_return_shown = false;
}

/// How a submission goes on: a plain text takes the way of a typed prompt.
pub fn is_plain_submission(attachments: usize, edits_earlier: bool) -> (r: bool)
    ensures
        r == (attachments == 0 && !edits_earlier),
{
    attachments == 0 && !edits_earlier
}

/// Only what happened since the last visit is told: whatever came before, the banner
/// is the same.
pub proof fn law_banner_forgets_what_was_seen(
    s: AwayState,
    seen: Seq<MessageModel>,
    other: Seq<MessageModel>,
    since: Seq<MessageModel>,
    now: Instant,
)
    requires
        seen.len() == s.interaction_message_idx,
        other.len() == s.interaction_message_idx,
    ensures
        away_banner(s, seen + since, now) == away_banner(s, other + since, now),
        since_last_visit(seen + since, s.interaction_message_idx as nat).len() == since.len(),
{
    assert((seen + since).skip(seen.len() as int) =~= since);
    assert((other + since).skip(other.len() as int) =~= since);
}

/// A banner comes only after five minutes and only once for an absence, and then
/// wherever the assistant did something; it says for how many minutes the user was
/// away.
pub proof fn law_banner_waits_for_an_absence(s: AwayState, msgs: Seq<MessageModel>, now: Instant)
    ensures
        now.since(s.last_user_activity_at) < 300_000_000_000 ==> away_banner(s, msgs, now) is None,
        s.idle_return_shown ==> away_banner(s, msgs, now) is None,
        now.since(s.last_user_activity_at) >= 300_000_000_000 && !s.idle_return_shown && (exists|i: int|
            s.interaction_message_idx <= i < msgs.len() && (#[trigger] msgs[i]).role == Role::Assistant
                && tools_of(msgs[i].parts).len() > 0) ==> {
            &&& away_banner(s, msgs, now) is Some
            &&& has_text(
                away_banner(s, msgs, now)->0,
                "(away "@ + decimal(now.since(s.last_user_activity_at) / 60_000_000_000) + "m"@,
            )
        },
{
    let secs = now.since(s.last_user_activity_at) / 1_000_000_000;
    let news = since_last_visit(msgs, s.interaction_message_idx as nat);
    if secs >= 300 && !s.idle_return_shown && exists|i: int|
        s.interaction_message_idx <= i < msgs.len() && (#[trigger] msgs[i]).role == Role::Assistant && tools_of(
            msgs[i].parts,
        ).len() > 0 {
        let i = choose|i: int|
            s.interaction_message_idx <= i < msgs.len() && (#[trigger] msgs[i]).role == Role::Assistant && tools_of(
                msgs[i].parts,
            ).len() > 0;
        assert(news[i - s.interaction_message_idx] == recap_of(msgs[i]));
        assert(crate::session_recap::is_news(news[i - s.interaction_message_idx]));
        crate::session_recap::law_recap_tells_only_news(news);
        let text = recap(news)->0;
        let mins = decimal(secs / 60);
        let said = "(away "@ + mins + "m"@;
        reveal_strlit("\n(away ");
        reveal_strlit("(away ");
        reveal_strlit("m · Esc to dismiss)");
        reveal_strlit("m");
        let banner = away_banner(s, msgs, now)->0;
        let at: int = text.len() as int + 1;
        assert(banner.subrange(at, at + said.len()) =~= said);
        assert(occurs_at(banner, said, at));
    }
}

proof fn lemma_tools_of(parts: Seq<PartModel>, k: int)
    requires
        0 <= k < parts.len(),
    ensures
        parts[k] is Tool ==> tools_of(parts).contains(parts[k]->Tool_0.kind.name()),
        parts[k] is Tool && changed_file(parts[k]->Tool_0.input) is Some ==> files_of(parts).contains(
            changed_file(parts[k]->Tool_0.input)->0,
        ),
    decreases parts.len(),
{
    let front = parts.drop_last();
    if k < front.len() {
        lemma_tools_of(front, k);
        if parts[k] is Tool {
            let name = parts[k]->Tool_0.kind.name();
            let i = choose|i: int| 0 <= i < tools_of(front).len() && tools_of(front)[i] == name;
            assert(tools_of(parts)[i] == name);
            if changed_file(parts[k]->Tool_0.input) is Some {
                let f = changed_file(parts[k]->Tool_0.input)->0;
                let j = choose|j: int| 0 <= j < files_of(front).len() && files_of(front)[j] == f;
                assert(files_of(parts)[j] == f);
            }
        }
    } else if parts[k] is Tool {
        assert(tools_of(parts)[tools_of(front).len() as int] == parts[k]->Tool_0.kind.name());
        if changed_file(parts[k]->Tool_0.input) is Some {
            assert(files_of(parts)[files_of(front).len() as int] == changed_file(parts[k]->Tool_0.input)->0);
        }
    }
}

proof fn lemma_preview(parts: Seq<PartModel>, from: int)
    requires
        0 <= from <= parts.len(),
    ensures
        preview_of(parts, from).len() <= 200,
    decreases parts.len() - from,
{
    if from < parts.len() {
        lemma_preview(parts, from + 1);
    }
}

/// What the recap knows of a message: each tool call by its name and in order, a
/// failure where one failed, and the beginning of what was said.
pub proof fn law_summaries_are_true(m: MessageModel, k: int)
    requires
        0 <= k < m.parts.len(),
    ensures
        recap_of(m).is_assistant == (m.role == Role::Assistant),
        m.parts[k] is Tool ==> recap_of(m).tool_calls.contains(m.parts[k]->Tool_0.kind.name()),
        m.parts[k] is Tool && m.parts[k]->Tool_0.status == ToolStatus::Failed ==> recap_of(m).had_error,
        (forall|i: int|
            0 <= i < m.parts.len() && (#[trigger] m.parts[i]) is Tool ==> m.parts[i]->Tool_0.status
                != ToolStatus::Failed) ==> !recap_of(m).had_error,
        m.parts[0] matches PartModel::Text(t) ==> t.len() > 0 ==> recap_of(m).text_preview == t.take(
            if t.len() > 200 {
                200
            } else {
                t.len() as int
            },
        ),
        m.parts[k] is Tool ==> match m.parts[k]->Tool_0.input {
            ToolInput::Write { file_path, .. } => recap_of(m).files_changed.contains(file_path@),
            ToolInput::Edit { file_path, .. } => recap_of(m).files_changed.contains(file_path@),
            ToolInput::MultiEdit { file_path, .. } => recap_of(m).files_changed.contains(file_path@),
            ToolInput::NotebookEdit { path } => recap_of(m).files_changed.contains(path@),
            _ => true,
        },
        recap_of(m).text_preview.len() <= 200,
{
    lemma_tools_of(m.parts, k);
    lemma_preview(m.parts, 0);
    if m.parts[0] is Text {
        let t = m.parts[0]->Text_0;
        assert(t.take(t.len() as int) =~= t);
    }
}

/// A visit counts: what was there is not told of again, a return within five minutes is
/// told nothing, and a banner that stands is the one of this visit.
pub proof fn law_visits_are_remembered(
    after: AwayState,
    before: AwayState,
    msgs: Seq<MessageModel>,
    now: Instant,
    more: Seq<MessageModel>,
    later: Instant,
)
    requires
        is_visit(after, before, msgs, now),
    ensures
        later.since(now) < 300_000_000_000 ==> away_banner(after, msgs + more, later) is None,
        since_last_visit(msgs + more, after.interaction_message_idx as nat).len() == more.len(),
        more.len() == 0 ==> away_banner(after, msgs + more, later) is None,
        now.since(before.last_user_activity_at) < 300_000_000_000 ==> after.away_recap is None,
        after.away_recap is Some ==> now.since(before.last_user_activity_at) >= 300_000_000_000,
{
    assert((msgs + more).skip(msgs.len() as int) =~= more);
    let news = since_last_visit(msgs + more, after.interaction_message_idx as nat);
    if more.len() == 0 {
        crate::session_recap::law_recap_tells_only_news(news);
    }
}

/// A submission is plain only where nothing is attached and nothing earlier is edited.
pub proof fn law_plain_submissions_carry_nothing(attachments: usize, edits_earlier: bool, r: bool)
    requires
        call_ensures(is_plain_submission, (attachments, edits_earlier), r),
    ensures
        attachments > 0 ==> !r,
        edits_earlier ==> !r,
        attachments == 0 && !edits_earlier ==> r,
{
}

/// The banner tells what happened and for how many minutes the user was away.
pub proof fn law_banner_tells_the_absence(s: AwayState, msgs: Seq<MessageModel>, now: Instant)
    requires
        away_banner(s, msgs, now) is Some,
    ensures
        ({
            let banner = away_banner(s, msgs, now)->0;
            let told = recap(since_last_visit(msgs, s.interaction_message_idx as nat));
            &&& told is Some
            &&& has_text(banner, told->0)
            &&& has_text(banner, "\n(away "@ + decimal(now.since(s.last_user_activity_at) / 60_000_000_000) + "m"@)
        }),
{
    let t = recap(since_last_visit(msgs, s.interaction_message_idx as nat))->0;
    let secs = now.since(s.last_user_activity_at) / 1_000_000_000;
    let d = decimal(secs / 60);
    assert(secs / 60 == now.since(s.last_user_activity_at) / 60_000_000_000);
    let a = "\n(away "@;
    let z = "m · Esc to dismiss)"@;
    reveal_strlit("m · Esc to dismiss)");
    reveal_strlit("m");
    let all = t + a + d + z;
    let w = a + d + "m"@;
    assert(all.subrange(t.len() as int, t.len() as int + w.len()) =~= w);
    assert(occurs_at(all, w, t.len() as int));
    assert(all.subrange(0, t.len() as int) =~= t);
    assert(occurs_at(all, t, 0));
}

} // verus!
