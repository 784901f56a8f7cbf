//! The detail body of one background agent: progress, last tool, model, how it
//! ended, its recent tools and the tail of its transcript.
use vstd::prelude::*;

use crate::background::{tokens_used, BackgroundTask, RecentActivity};
use crate::fitting::{shortened, truncate_str};
use crate::pinned::{less, Row};
use crate::roster::{activity_count_text, bare_model, format_token_count, larger, model_fqn, token_count_text, tool_activity_count_label, tool_shown};
use crate::showing::{lemma_has_in_sum, lemma_has_itself, lemma_has_trans, lemma_joined_has, lemma_row_has, lemma_sum_of_three, row_text, shows};
use crate::slicing::{group_texts, has_text, join, joined, opt_text, replace_char, texts, trim, trimmed, with_replaced};
use crate::spinner::{elapsed_text, fmt_elapsed};
use crate::styled::{blank_line, blank_row, group_rows, line1, line2, line4, push_lines, row1, row2, row4, rows, span, Line, Style, Tone};
use crate::text::{cat2, cat3, char_count};
use crate::time::{Duration, Instant};
use crate::transcript::{
    message_models, part_models, ChatMessage, MessageModel, MessagePart, PartModel, Role,
    TaskLifecycle,
};

verus! {

broadcast use {group_texts, group_rows};

/// How long the agent has run. The clock stands still once it has ended.
pub open spec fn run_time(bt: BackgroundTask, now: Instant) -> nat {
    match bt.completed_at {
        Some(done) if bt.status.ended() => done.since(bt.started_at) / 1_000_000_000,
        _ => now.since(bt.started_at) / 1_000_000_000,
    }
}

/// A heading of the body.
pub open spec fn heading(title: Seq<char>) -> Row {
    row1(title, Style::in_tone(Tone::TextMuted).made_bold())
}

/// The figures of the agent's progress.
pub open spec fn progress_chips(bt: BackgroundTask, now: Instant) -> Seq<Seq<char>> {
    let tokens = if tokens_used(bt) > 0 {
        seq!["↓ "@ + token_count_text(tokens_used(bt)) + " tokens"@]
    } else {
        Seq::empty()
    };
    let count = if bt.tool_use_count > 0 {
        seq![activity_count_text(bt)]
    } else {
        Seq::empty()
    };
    seq!["  ⏱ "@ + elapsed_text(run_time(bt, now))] + tokens + count
}

fn progress_text(bt: &BackgroundTask, now: Instant) -> (r: String)
    ensures
        r@ == joined(progress_chips(*bt, now), " · "@),
{
    let ran = match bt.completed_at {
        Some(done) => if bt.status.is_terminal() {
            done.duration_since(bt.started_at)
        } else {
            now.duration_since(bt.started_at)
        },
        None => now.duration_since(bt.started_at),
    };
    let mut stats: Vec<String> = Vec::new();
    stats.push(cat2("  ⏱ ", fmt_elapsed(ran).as_str()));
    let total: u64 = bt.total_tokens();
    if total > 0 {
        stats.push(cat3("↓ ", format_token_count(total).as_str(), " tokens"));
    }
    if bt.tool_use_count > 0 {
        stats.push(tool_activity_count_label(bt));
    }
    assert(texts(stats@) =~= progress_chips(*bt, now));
    join(&stats, " · ")
}

/// The last tool, the model.
pub open spec fn tool_and_model_rows(bt: BackgroundTask) -> Seq<Row> {
    let tool = match tool_shown(bt) {
        Some(t) => seq![
            row2(("  › "@, Style::in_tone(Tone::Accent)), (t, Style::in_tone(Tone::TextPrimary))),
        ],
        None => Seq::empty(),
    };
    let model = match opt_text(bt.model_used) {
        Some(m) => seq![
            row2(
                ("  Model: "@, Style::in_tone(Tone::TextMuted)),
                (bare_model(m), Style::in_tone(Tone::TextSecondary)),
            ),
        ],
        None => Seq::empty(),
    };
    tool + model
}

fn tool_and_model_lines(bt: &BackgroundTask) -> (r: Vec<Line>)
    ensures
        rows(r@) == tool_and_model_rows(*bt),
{
    let mut out: Vec<Line> = Vec::new();
    let tool = match &bt.last_tool_info {
        Some(t) => Some(t.clone()),
        None => match &bt.last_tool {
            Some(t) => Some(t.clone()),
            None => None,
        },
    };
    assert(opt_text(tool) == tool_shown(*bt));
    if let Some(t) = tool {
        out.push(
            line2(span("  › ".to_owned(), Style::fg(Tone::Accent)), span(t, Style::fg(Tone::TextPrimary))),
        );
    }
    if let Some(m) = &bt.model_used {
        out.push(
            line2(
                span("  Model: ".to_owned(), Style::fg(Tone::TextMuted)),
                span(model_fqn(m.as_str()), Style::fg(Tone::TextSecondary)),
            ),
        );
    }
    assert(rows(out@) =~= tool_and_model_rows(*bt));
    out
}

/// What came of an agent that has ended: its result, or why it failed.
pub open spec fn outcome(bt: BackgroundTask) -> Option<(Seq<char>, nat, Seq<char>, Tone)> {
    match bt.status {
        TaskLifecycle::Completed => match opt_text(bt.summary) {
            Some(s) => Some(("  Result: "@, 10, s, Tone::Success)),
            None => None,
        },
        TaskLifecycle::Failed | TaskLifecycle::Cancelled => match opt_text(bt.error) {
            Some(s) => Some(("  Error: "@, 9, s, Tone::Error)),
            None => None,
        },
        _ => None,
    }
}

/// The row that says what came of the agent, on one line.
pub open spec fn outcome_rows(bt: BackgroundTask, width: nat) -> Seq<Row> {
    match outcome(bt) {
        Some((prefix, cells, body, tone)) => seq![
            row2(
                (prefix, Style::in_tone(Tone::TextMuted)),
                (
                    shortened(with_replaced(body, '\n', ' '), larger(less(width, cells), 8)),
                    Style::in_tone(tone),
                ),
            ),
        ],
        None => Seq::empty(),
    }
}

/// The row that says what came of the agent.
pub fn terminal_result_line(bt: &BackgroundTask, width: u16) -> (r: Option<Line>)
    ensures
        match r {
            Some(line) => outcome_rows(*bt, width as nat) == seq![line@],
            None => outcome_rows(*bt, width as nat) == Seq::<Row>::empty(),
        },
{
    let (prefix, cells, body, tone): (&str, usize, &String, Tone) = match bt.status {
        TaskLifecycle::Completed => match &bt.summary {
            Some(s) => ("  Result: ", 10, s, Tone::Success),
            None => {
                return None;
            },
        },
        TaskLifecycle::Failed | TaskLifecycle::Cancelled => match &bt.error {
            Some(s) => ("  Error: ", 9, s, Tone::Error),
            None => {
                return None;
            },
        },
        _ => {
            return None;
        },
    };
    let free: usize = (width as usize).saturating_sub(cells);
    let room: usize = if free >= 8 {
        free
    } else {
        8
    };
    Some(
        line2(
            span(prefix.to_owned(), Style::fg(Tone::TextMuted)),
            span(truncate_str(replace_char(body.as_str(), '\n', ' ').as_str(), room), Style::fg(tone)),
        ),
    )
}

/// The row of one recent tool.
pub open spec fn activity_row(a: RecentActivity, width: nat) -> Row {
    row4(
        ("  › "@, Style::in_tone(Tone::Accent)),
        (
            "["@ + elapsed_text((a.elapsed_ms / 1000) as nat) + "] "@,
            Style::in_tone(Tone::TextMuted),
        ),
        (a.label@ + " "@, Style::in_tone(Tone::TextSecondary)),
        (
            shortened(with_replaced(a.display@, '\n', ' '), less(width, 18)),
            Style::in_tone(Tone::TextPrimary),
        ),
    )
}

/// The recent tools under their heading.
pub open spec fn activity_rows(v: Seq<RecentActivity>, width: nat) -> Seq<Row> {
    if v.len() == 0 {
        Seq::empty()
    } else {
        seq![blank_row(), heading("  Recent tools"@)] + v.map_values(
            |a: RecentActivity| activity_row(a, width),
        )
    }
}

/// The recent tools of an agent.
pub fn recent_activity_lines(v: &Vec<RecentActivity>, width: u16) -> (r: Vec<Line>)
    ensures
        rows(r@) == activity_rows(v@, width as nat),
{
    let mut out: Vec<Line> = Vec::new();
    if v.len() == 0 {
        return out;
    }
    out.push(blank_line());
    out.push(line1("  Recent tools".to_owned(), Style::fg(Tone::TextMuted).bold()));
    let ghost all = v@.map_values(|a: RecentActivity| activity_row(a, width as nat));
    let ghost head = seq![blank_row(), heading("  Recent tools"@)];
    let mut i: usize = 0;
    assert(rows(out@) =~= head + all.take(0));
    while i < v.len()
        invariant
            i <= v@.len(),
            all == v@.map_values(|a: RecentActivity| activity_row(a, width as nat)),
            rows(out@) == head + all.take(i as int),
        decreases v@.len() - i,
    {
        let a = &v[i];
        let ran = Duration::from_millis(a.elapsed_ms);
        assert(ran.secs() == a.elapsed_ms / 1000);
        out.push(
            line4(
                span("  › ".to_owned(), Style::fg(Tone::Accent)),
                span(cat3("[", fmt_elapsed(ran).as_str(), "] "), Style::fg(Tone::TextMuted)),
                span(cat2(a.label.as_str(), " "), Style::fg(Tone::TextSecondary)),
                span(
                    truncate_str(
                        replace_char(a.display.as_str(), '\n', ' ').as_str(),
                        (width as usize).saturating_sub(18),
                    ),
                    Style::fg(Tone::TextPrimary),
                ),
            ),
        );
        assert(head + all.take(i + 1) =~= (head + all.take(i as int)).push(all[i as int]));
        i += 1;
    }
    assert(all.take(i as int) =~= all);
    out
}

// ── the transcript's tail ───────────────────────────────────────────────

/// The text of a part; a part that is not text has none.
pub open spec fn plain_text(p: PartModel) -> Seq<char> {
    match p {
        PartModel::Text(s) => s,
        _ => Seq::empty(),
    }
}

/// What a message says, on one line.
pub open spec fn spoken(parts: Seq<PartModel>) -> Seq<char> {
    trimmed(joined(parts.map_values(|p: PartModel| plain_text(p)), " "@))
}

fn spoken_text(parts: &Vec<MessagePart>) -> (r: String)
    ensures
        r@ == spoken(part_models(parts@)),
{
    let ghost all = part_models(parts@).map_values(|p: PartModel| plain_text(p));
    let mut out: Vec<String> = Vec::new();
    let mut i: usize = 0;
    assert(texts(out@) =~= all.take(0));
    while i < parts.len()
        invariant
            i <= parts@.len(),
            all == part_models(parts@).map_values(|p: PartModel| plain_text(p)),
            texts(out@) == all.take(i as int),
        decreases parts@.len() - i,
    {
        let t = match &parts[i] {
            MessagePart::Text(s) => s.clone(),
            _ => String::new(),
        };
        assert(t@ =~= all[i as int]);
        out.push(t);
        assert(all.take(i + 1) =~= all.take(i as int).push(all[i as int]));
        i += 1;
    }
    assert(all.take(i as int) =~= all);
    trim(join(&out, " ").as_str())
}

/// The rows of a message: one, or none where it says nothing.
pub open spec fn message_rows(m: MessageModel, width: nat) -> Seq<Row> {
    let text = spoken(m.parts);
    if text.len() == 0 {
        Seq::empty()
    } else {
        let (tag, tone) = match m.role {
            Role::User => ("  › "@, Tone::Accent),
            Role::Assistant => ("  ⟐ "@, Tone::TextSecondary),
        };
        seq![
            row2(
                (tag, Style::in_tone(tone)),
                (
                    shortened(with_replaced(text, '\n', ' '), less(width, 6)),
                    Style::in_tone(Tone::TextSecondary),
                ),
            ),
        ]
    }
}

/// The rows of messages.
pub open spec fn messages_rows(v: Seq<MessageModel>, width: nat) -> Seq<Row>
    decreases v.len(),
{
    if v.len() == 0 {
        Seq::empty()
    } else {
        messages_rows(v.drop_last(), width) + message_rows(v.last(), width)
    }
}

/// How many messages the tail shows.
pub const TAIL_MESSAGES: usize = 6;

/// The last messages under their heading.
pub open spec fn tail_rows(v: Seq<MessageModel>, width: nat) -> Seq<Row> {
    if v.len() == 0 {
        Seq::empty()
    } else {
        seq![blank_row(), heading("  Recent activity"@)] + messages_rows(
            v.skip(less(v.len(), TAIL_MESSAGES as nat) as int),
            width,
        )
    }
}

/// The last messages of an agent.
pub fn transcript_lines(v: &Vec<ChatMessage>, width: u16) -> (r: Vec<Line>)
    ensures
        rows(r@) == tail_rows(message_models(v@), width as nat),
{
    let ghost models = message_models(v@);
    let mut out: Vec<Line> = Vec::new();
    if v.len() == 0 {
        return out;
    }
    out.push(blank_line());
    out.push(line1("  Recent activity".to_owned(), Style::fg(Tone::TextMuted).bold()));
    let ghost head = seq![blank_row(), heading("  Recent activity"@)];
    let from: usize = v.len().saturating_sub(TAIL_MESSAGES);
    let ghost tail = models.skip(from as int);
    let mut i: usize = from;
    assert(tail.take(0) =~= Seq::<MessageModel>::empty());
    assert(rows(out@) =~= head + messages_rows(tail.take(0), width as nat));
    while i < v.len()
        invariant
            from <= i <= v@.len(),
            models == message_models(v@),
            tail == models.skip(from as int),
            rows(out@) == head + messages_rows(tail.take(i - from), width as nat),
        decreases v@.len() - i,
    {
        let m = &v[i];
        let ghost model = models[i as int];
        assert(tail.take(i + 1 - from).drop_last() =~= tail.take(i - from));
        assert(tail.take(i + 1 - from).last() == model);
        let text = spoken_text(&m.parts);
        let ghost before = rows(out@);
        let ghost so_far = messages_rows(tail.take(i - from), width as nat);
        if char_count(text.as_str()) > 0 {
            let (tag, tone) = match m.role {
                Role::User => ("  › ", Tone::Accent),
                Role::Assistant => ("  ⟐ ", Tone::TextSecondary),
            };
            let line = line2(
                span(tag.to_owned(), Style::fg(tone)),
                span(
                    truncate_str(
                        replace_char(text.as_str(), '\n', ' ').as_str(),
                        (width as usize).saturating_sub(6),
                    ),
                    Style::fg(Tone::TextSecondary),
                ),
            );
            assert(message_rows(model, width as nat) =~= seq![line@]);
            out.push(line);
            assert(before.push(line@) =~= head + (so_far + seq![line@]));
        } else {
            assert(head + so_far =~= head + (so_far + Seq::<Row>::empty()));
        }
        i += 1;
    }
    assert(tail.take(i - from) =~= tail);
    out
}

// ── the body ────────────────────────────────────────────────────────────

/// The detail body of an agent.
pub open spec fn detail_rows(bt: BackgroundTask, width: nat, now: Instant) -> Seq<Row> {
    seq![
        blank_row(),
        heading("  Progress"@),
        row1(joined(progress_chips(bt, now), " · "@), Style::in_tone(Tone::TextSecondary)),
    ] + tool_and_model_rows(bt) + outcome_rows(bt, width) + activity_rows(
        bt.recent_activities@,
        width,
    ) + tail_rows(message_models(bt.chat_messages@), width)
}

/// The detail body of an agent: its progress, its last tool, its model, what
/// came of it, its recent tools and its last messages.
pub fn agent_detail_lines(bt: &BackgroundTask, width: u16, now: Instant) -> (r: Vec<Line>)
    ensures
        rows(r@) == detail_rows(*bt, width as nat, now),
{
    let mut out: Vec<Line> = Vec::new();
    out.push(blank_line());
    out.push(line1("  Progress".to_owned(), Style::fg(Tone::TextMuted).bold()));
    out.push(line1(progress_text(bt, now), Style::fg(Tone::TextSecondary)));
    assert(rows(out@) =~= seq![
        blank_row(),
        heading("  Progress"@),
        row1(joined(progress_chips(*bt, now), " · "@), Style::in_tone(Tone::TextSecondary)),
    ]);
    push_lines(&mut out, tool_and_model_lines(bt));
    let ghost before = rows(out@);
    if let Some(line) = terminal_result_line(bt, width) {
        out.push(line);
        assert(rows(out@) =~= before + seq![line@]);
    } else {
        assert(before =~= before + Seq::<Row>::empty());
    }
    push_lines(&mut out, recent_activity_lines(&bt.recent_activities, width));
    push_lines(&mut out, transcript_lines(&bt.chat_messages, width));
    out
}

/// Once an agent has ended, its clock stands still: the body does not change as
/// time goes on.
pub proof fn law_ended_agent_is_frozen(bt: BackgroundTask, width: nat, now: Instant, later: Instant)
    requires
        bt.status.ended(),
        bt.completed_at is Some,
    ensures
        detail_rows(bt, width, now) == detail_rows(bt, width, later),
{
}

/// The detail of an agent shows how long it has run, what it used, its last tool and
/// its model.
pub proof fn law_details_show_the_progress(bt: BackgroundTask, width: nat, now: Instant)
    ensures
        shows(detail_rows(bt, width, now), elapsed_text(run_time(bt, now))),
        tokens_used(bt) > 0 ==> shows(detail_rows(bt, width, now), token_count_text(tokens_used(bt)) + " tokens"@),
        bt.tool_use_count > 0 ==> shows(detail_rows(bt, width, now), activity_count_text(bt)),
        tool_shown(bt) is Some ==> shows(detail_rows(bt, width, now), tool_shown(bt)->0),
        bt.model_used is Some ==> shows(detail_rows(bt, width, now), bare_model(bt.model_used->0@)),
{
    let all = detail_rows(bt, width, now);
    let chips = progress_chips(bt, now);
    let time = elapsed_text(run_time(bt, now));
    assert(all[2] == row1(joined(chips, " · "@), Style::in_tone(Tone::TextSecondary)));
    assert(chips[0] == "  ⏱ "@ + time);
    lemma_joined_has(chips, " · "@, 0);
    lemma_has_in_sum("  ⏱ "@, time, time);
    lemma_has_trans(joined(chips, " · "@), chips[0], time);
    lemma_row_has(all[2], 0, time);
    if tokens_used(bt) > 0 {
        let n = token_count_text(tokens_used(bt));
        let w = n + " tokens"@;
        assert(chips[1] == "↓ "@ + n + " tokens"@);
        lemma_joined_has(chips, " · "@, 1);
        lemma_sum_of_three("↓ "@, n, " tokens"@);
        lemma_has_in_sum("↓ "@, w, w);
        lemma_has_trans(joined(chips, " · "@), chips[1], w);
        lemma_row_has(all[2], 0, w);
    }
    if bt.tool_use_count > 0 {
        let at = chips.len() - 1;
        assert(chips[at] == activity_count_text(bt));
        lemma_joined_has(chips, " · "@, at);
        lemma_row_has(all[2], 0, activity_count_text(bt));
    }
    let tools = tool_and_model_rows(bt);
    if tool_shown(bt) is Some {
        let t = tool_shown(bt)->0;
        assert(all[3] == tools[0]);
        lemma_has_itself(t);
        lemma_row_has(all[3], 1, t);
    }
    if bt.model_used is Some {
        let m = bare_model(bt.model_used->0@);
        let at = tools.len() - 1;
        assert(all[3 + at] == tools[at]);
        lemma_has_itself(m);
        lemma_row_has(all[3 + at], 1, m);
    }
}

/// An agent that is done shows its result, and one that failed or was stopped its
/// error; one that still works shows neither.
pub proof fn law_outcome_is_that_of_the_state(bt: BackgroundTask, width: nat)
    ensures
        bt.status == TaskLifecycle::Completed && bt.summary is Some ==> outcome(bt) is Some && (outcome(bt)->0).2
            == bt.summary->0@,
        (bt.status == TaskLifecycle::Failed || bt.status == TaskLifecycle::Cancelled) && bt.error is Some ==> outcome(
            bt,
        ) is Some && (outcome(bt)->0).2 == bt.error->0@ && (outcome(bt)->0).3 == Tone::Error,
        !bt.status.ended() ==> outcome_rows(bt, width).len() == 0,
        bt.status == TaskLifecycle::Completed && bt.summary is Some && bt.summary->0@.len() + 10 <= width
            && !bt.summary->0@.contains('\n') ==> shows(outcome_rows(bt, width), bt.summary->0@),
        bt.status == TaskLifecycle::Failed && bt.error is Some && bt.error->0@.len() + 9 <= width
            && !bt.error->0@.contains('\n') ==> shows(outcome_rows(bt, width), bt.error->0@),
{
    match outcome(bt) {
        Some((prefix, cells, body, tone)) => {
            if body.len() + cells <= width && !body.contains('\n') {
                let row = outcome_rows(bt, width)[0];
                assert(with_replaced(body, '\n', ' ') =~= body) by {
                    assert forall|i: int| 0 <= i < body.len() implies body[i] != '\n' by {
                        assert(body.contains(body[i]));
                    }
                }
                assert(row[1].0 == body);
                lemma_has_itself(body);
                lemma_row_has(row, 1, body);
            }
        },
        None => {
        },
    }
}

proof fn lemma_messages_rows_has(v: Seq<MessageModel>, width: nat, k: int)
    requires
        0 <= k < v.len(),
        spoken(v[k].parts).len() > 0,
    ensures
        messages_rows(v, width).contains(message_rows(v[k], width)[0]),
    decreases v.len(),
{
    let front = v.drop_last();
    let before = messages_rows(front, width);
    let row = message_rows(v[k], width)[0];
    if k < front.len() {
        lemma_messages_rows_has(front, width, k);
        let i = choose|i: int| 0 <= i < before.len() && before[i] == row;
        assert(messages_rows(v, width)[i] == row);
    } else {
        assert(messages_rows(v, width)[before.len() as int] == row);
    }
}

/// Of what an agent said, the last six messages are shown, and only those: each that
/// says anything has its row, with what it says.
pub proof fn law_latest_messages_are_shown(v: Seq<MessageModel>, width: nat, k: int)
    requires
        0 <= k < v.len(),
        v.len() <= k + 6,
        spoken(v[k].parts).len() > 0,
    ensures
        tail_rows(v, width).contains(message_rows(v[k], width)[0]),
        has_text(
            row_text(message_rows(v[k], width)[0]),
            shortened(with_replaced(spoken(v[k].parts), '\n', ' '), less(width, 6)),
        ),
{
    let from = less(v.len(), TAIL_MESSAGES as nat) as int;
    let some = v.skip(from);
    assert(some[k - from] == v[k]);
    lemma_messages_rows_has(some, width, k - from);
    let own = messages_rows(some, width);
    let row = message_rows(v[k], width)[0];
    let i = choose|i: int| 0 <= i < own.len() && own[i] == row;
    assert(tail_rows(v, width)[i + 2] == row);
    let text = shortened(with_replaced(spoken(v[k].parts), '\n', ' '), less(width, 6));
    lemma_has_itself(text);
    lemma_row_has(row, 1, text);
}

/// What was said before the last six messages does not matter.
pub proof fn law_older_messages_are_left_out(old_ones: Seq<MessageModel>, others: Seq<MessageModel>, last: Seq<MessageModel>, width: nat)
    requires
        last.len() == 6,
    ensures
        tail_rows(old_ones + last, width) == tail_rows(others + last, width),
{
    assert((old_ones + last).skip(old_ones.len() as int) =~= last);
    assert((others + last).skip(others.len() as int) =~= last);
}

/// Every recent tool has a row with its kind and what it worked on.
pub proof fn law_recent_tools_are_listed(v: Seq<RecentActivity>, width: nat, k: int)
    requires
        0 <= k < v.len(),
    ensures
        activity_rows(v, width).len() == v.len() + 2,
        has_text(row_text(activity_rows(v, width)[k + 2]), v[k].label@),
        has_text(
            row_text(activity_rows(v, width)[k + 2]),
            shortened(with_replaced(v[k].display@, '\n', ' '), less(width, 18)),
        ),
        has_text(row_text(activity_rows(v, width)[k + 2]), elapsed_text((v[k].elapsed_ms / 1000) as nat)),
{
    let row = activity_row(v[k], width);
    assert(activity_rows(v, width)[k + 2] == row);
    lemma_has_itself(v[k].label@);
    lemma_has_in_sum(v[k].label@, " "@, v[k].label@);
    lemma_row_has(row, 2, v[k].label@);
    let text = shortened(with_replaced(v[k].display@, '\n', ' '), less(width, 18));
    lemma_has_itself(text);
    lemma_row_has(row, 3, text);
    let time = elapsed_text((v[k].elapsed_ms / 1000) as nat);
    lemma_has_in_sum("["@, time, time);
    lemma_has_in_sum("["@ + time, "] "@, time);
    lemma_row_has(row, 1, time);
}

} // verus!
