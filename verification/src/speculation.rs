//! Speculative execution while the user types.
//!
//! Likely tool calls run ahead in an overlay directory; on submit they are
//! accepted at once or thrown away. Nothing reaches the real files before that.
use vstd::prelude::*;

use crate::bytes_len::{longer_than_bytes, utf8_size};
use crate::paths::{
    climbs, components, escapes, is_absolute, is_escaping, is_same_path, join_path, leads_under, lies_under,
    moved_under, path_under, relative_components, same_path,
};
use crate::slicing::{
    contains, ends_with, group_texts, has_suffix, has_text, join, opt_text, texts, trim, trimmed,
};
use crate::text::{lowercase, same_text, to_lowercase};
use crate::time::{Duration, Instant};

verus! {

broadcast use group_texts;

// ── the overlay ─────────────────────────────────────────────────────────

/// An overlay session: write tools put their files under the overlay root
/// while it is active.
#[derive(Debug)]
pub struct OverlaySession {
    pub id: String,
    pub overlay_root: String,
    pub real_cwd: String,
}

/// The text of an overlay session: its id, its root and the real directory.
pub open spec fn overlay_text(s: OverlaySession) -> (Seq<char>, Seq<char>, Seq<char>) {
    (s.id@, s.overlay_root@, s.real_cwd@)
}

/// The text of an overlay session, if there is one.
pub open spec fn opt_overlay(s: Option<OverlaySession>) -> Option<(Seq<char>, Seq<char>, Seq<char>)> {
    match s {
        Some(o) => Some(overlay_text(o)),
        None => None,
    }
}

impl Clone for OverlaySession {
    fn clone(&self) -> (r: Self)
        ensures
            overlay_text(r) == overlay_text(*self),
    {
        OverlaySession {
            id: self.id.clone(),
            overlay_root: self.overlay_root.clone(),
            real_cwd: self.real_cwd.clone(),
        }
    }
}

/// Where the active overlay session is kept.
#[derive(Debug)]
pub struct OverlaySlot {
    pub session: Option<OverlaySession>,
}

/// Install an overlay session: later writes go through the overlay until it is
/// cleared.
pub fn install_overlay(slot: &mut OverlaySlot, session: OverlaySession)
    ensures
        final(slot).session == Some(session),
{
    slot.session = Some(session);
}

/// The active overlay session, if any.
pub fn active_overlay(slot: &OverlaySlot) -> (r: Option<OverlaySession>)
    ensures
        opt_overlay(r) == opt_overlay(slot.session),
{
    match &slot.session {
        Some(s) => Some(s.clone()),
        None => None,
    }
}

/// Clear the active overlay session and hand it out. The caller decides
/// whether to copy its files back or to throw them away.
pub fn clear_overlay(slot: &mut OverlaySlot) -> (r: Option<OverlaySession>)
    ensures
        r == old(slot).session,
        final(slot).session is None,
{
    slot.session.take()
}

/// Where a write to `real_path` goes: the same place under the overlay root, if
/// an overlay is active and the path does not leave the real directory, neither
/// at its start nor by climbing out of it on the way.
pub open spec fn overlay_target(session: Option<OverlaySession>, real_path: Seq<char>) -> Option<
    Seq<char>,
> {
    match session {
        None => None,
        Some(s) => carried_over(path_under(s.real_cwd@, real_path), s.real_cwd@, s.overlay_root@),
    }
}

/// The place under `to` that `path` has under `from`. None where the path does
/// not lie there, or climbs out of it.
pub open spec fn carried_over(path: Seq<char>, from: Seq<char>, to: Seq<char>) -> Option<Seq<char>> {
    let n = components(from).len() as int;
    if lies_under(path, from) && !escapes(components(path).skip(n)) {
        Some(moved_under(to, path, n))
    } else {
        None
    }
}

fn carry_over(path: &str, from: &str, to: &str) -> (r: Option<String>)
    ensures
        opt_text(r) == carried_over(path@, from@, to@),
{
    match relative_components(path, from) {
        None => None,
        Some(rel) => if is_escaping(&rel) {
            None
        } else {
            Some(join_path(to, join(&rel, "/").as_str()))
        },
    }
}

/// The overlay counterpart of a path. `None` if no overlay is active or the
/// path escapes the real directory.
pub fn overlay_path_for(slot: &OverlaySlot, real_path: &str) -> (r: Option<String>)
    ensures
        opt_text(r) == overlay_target(slot.session, real_path@),
{
    match &slot.session {
        None => None,
        Some(session) => {
            let abs = join_path(session.real_cwd.as_str(), real_path);
            carry_over(abs.as_str(), session.real_cwd.as_str(), session.overlay_root.as_str())
        },
    }
}

/// Where a file of the overlay goes when the speculation is accepted: to the
/// same place under the real directory.
pub open spec fn accepted_target(session: OverlaySession, file: Seq<char>) -> Option<Seq<char>> {
    carried_over(file, session.overlay_root@, session.real_cwd@)
}

/// Where a file of the overlay goes when the speculation is accepted. `None` if
/// the file does not belong to the overlay.
pub fn accepted_path(session: &OverlaySession, file: &str) -> (r: Option<String>)
    ensures
        opt_text(r) == accepted_target(*session, file@),
{
    carry_over(file, session.overlay_root.as_str(), session.real_cwd.as_str())
}

// ── tools ───────────────────────────────────────────────────────────────

/// Tools that only read.
pub open spec fn is_reading_tool(name: Seq<char>) -> bool {
    name == "Read"@ || name == "Glob"@ || name == "Grep"@ || name == "ToolSearch"@ || name
        == "WebFetch"@
}

/// Tools that may write inside the overlay.
pub open spec fn is_writing_tool(name: Seq<char>) -> bool {
    name == "Write"@ || name == "Edit"@
}

/// Status of a running speculation.
#[derive(Debug, PartialEq, Eq)]
pub enum SpeculationStatus {
    /// Running speculative tool calls.
    Active,
    /// Paused at a boundary.
    Paused { reason: String },
    /// Completed, waiting for the user to submit.
    Idle,
}

/// A single speculation session.
#[derive(Debug)]
pub struct SpeculationSession {
    pub id: String,
    pub status: SpeculationStatus,
    pub started_at: Instant,
    pub suggestion_length: usize,
    pub tool_use_count: u32,
    pub overlay_dir: String,
    /// Written paths, no two of them the same path.
    pub written_paths: Vec<String>,
}

/// Some path of `paths` is the path `path`.
pub open spec fn has_path(paths: Seq<Seq<char>>, path: Seq<char>) -> bool {
    exists|i: int| 0 <= i < paths.len() && same_path(#[trigger] paths[i], path)
}

/// The paths with one more, unless it is among them.
pub open spec fn with_written(paths: Seq<Seq<char>>, path: Seq<char>) -> Seq<Seq<char>> {
    if has_path(paths, path) {
        paths
    } else {
        paths.push(path)
    }
}

/// No two of the paths are the same path.
pub open spec fn distinct_paths(paths: Seq<Seq<char>>) -> bool {
    forall|i: int, j: int|
        0 <= i < j < paths.len() ==> !same_path(#[trigger] paths[i], #[trigger] paths[j])
}

/// Milliseconds from `start` to `now`, as a 64-bit count.
pub open spec fn elapsed_ms(now: Instant, start: Instant) -> nat {
    (now.since(start) / 1_000_000) % 0x1_0000_0000_0000_0000
}

impl SpeculationSession {
    /// No path is counted twice.
    pub open spec fn wf(self) -> bool {
        distinct_paths(texts(self.written_paths@))
    }

    pub fn new(id: String, overlay_dir: String, suggestion_length: usize, now: Instant) -> (r: Self)
        ensures
            r.wf(),
            r.id == id,
            r.status == SpeculationStatus::Active,
            r.started_at == now,
            r.suggestion_length == suggestion_length,
            r.tool_use_count == 0,
            r.overlay_dir == overlay_dir,
            r.written_paths@.len() == 0,
    {
        SpeculationSession {
            id,
            status: SpeculationStatus::Active,
            started_at: now,
            suggestion_length,
            tool_use_count: 0,
            overlay_dir,
            written_paths: Vec::new(),
        }
    }

    /// Whether a tool is allowed during speculation.
    pub fn is_tool_allowed(tool_name: &str) -> (r: bool)
        ensures
            r == (is_reading_tool(tool_name@) || is_writing_tool(tool_name@)),
    {
        same_text(tool_name, "Read") || same_text(tool_name, "Glob") || same_text(tool_name, "Grep")
            || same_text(tool_name, "ToolSearch") || same_text(tool_name, "WebFetch")
            || Self::is_write_tool(tool_name)
    }

    /// Whether a tool can write during speculation.
    pub fn is_write_tool(tool_name: &str) -> (r: bool)
        ensures
            r == is_writing_tool(tool_name@),
    {
        same_text(tool_name, "Write") || same_text(tool_name, "Edit")
    }

    /// Record a speculative file write. A path written before is not counted
    /// again; the tool use is.
    pub fn record_write(&mut self, path: String)
        requires
            old(self).wf(),
            old(self).tool_use_count < u32::MAX,
        ensures
            final(self).wf(),
            final(self).tool_use_count == old(self).tool_use_count + 1,
            texts(final(self).written_paths@) == with_written(texts(old(self).written_paths@), path@),
            final(self).id == old(self).id,
            final(self).status == old(self).status,
            final(self).started_at == old(self).started_at,
            final(self).suggestion_length == old(self).suggestion_length,
            final(self).overlay_dir == old(self).overlay_dir,
    {
        let ghost before = texts(self.written_paths@);
        let mut found = false;
        let mut i: usize = 0;
        while i < self.written_paths.len() && !found
            invariant
                i <= self.written_paths@.len(),
                before == texts(self.written_paths@),
                found ==> has_path(before, path@),
                !found ==> forall|j: int| 0 <= j < i ==> !same_path(#[trigger] before[j], path@),
            decreases self.written_paths@.len() - i,
        {
            assert(before[i as int] == self.written_paths@[i as int]@);
            if is_same_path(self.written_paths[i].as_str(), path.as_str()) {
                found = true;
            }
            i += 1;
        }
        self.tool_use_count = self.tool_use_count + 1;
        if !found {
            self.written_paths.push(path);
        }
    }

    /// Accept the speculation.
    pub fn accept(self, now: Instant) -> (r: SpeculationResult)
        requires
            self.written_paths@.len() <= u32::MAX,
        ensures
            r.accepted,
            r.duration_ms == elapsed_ms(now, self.started_at),
            r.tool_calls == self.tool_use_count,
            r.files_written == self.written_paths@.len(),
    {
        SpeculationResult {
            accepted: true,
            duration_ms: (now.duration_since(self.started_at).as_millis() % 0x1_0000_0000_0000_0000) as u64,
            tool_calls: self.tool_use_count,
            files_written: self.written_paths.len() as u32,
        }
    }

    /// Discard the speculation: no file counts as written.
    pub fn discard(self, now: Instant) -> (r: SpeculationResult)
        ensures
            !r.accepted,
            r.duration_ms == elapsed_ms(now, self.started_at),
            r.tool_calls == self.tool_use_count,
            r.files_written == 0,
    {
        SpeculationResult {
            accepted: false,
            duration_ms: (now.duration_since(self.started_at).as_millis() % 0x1_0000_0000_0000_0000) as u64,
            tool_calls: self.tool_use_count,
            files_written: 0,
        }
    }

    /// Pause speculation at a boundary.
    pub fn pause(&mut self, reason: String)
        ensures
            *final(self) == (SpeculationSession {
                status: SpeculationStatus::Paused { reason },
                ..*old(self)
            }),
    {
        self.status = SpeculationStatus::Paused { reason };
    }
}

/// Result of a completed speculation.
#[derive(Debug, Clone)]
pub struct SpeculationResult {
    pub accepted: bool,
    pub duration_ms: u64,
    pub tool_calls: u32,
    pub files_written: u32,
}

/// Accumulated speculation statistics of a session.
#[derive(Debug, Clone)]
pub struct SpeculationStats {
    pub total_speculations: u32,
    pub accepted_count: u32,
    pub discarded_count: u32,
    pub time_saved_ms: u64,
}

impl Default for SpeculationStats {
    fn default() -> (r: Self)
        ensures
            r.total_speculations == 0,
            r.accepted_count == 0,
            r.discarded_count == 0,
            r.time_saved_ms == 0,
    {
        SpeculationStats {
            total_speculations: 0,
            accepted_count: 0,
            discarded_count: 0,
            time_saved_ms: 0,
        }
    }
}

impl SpeculationStats {
    /// Every speculation was either accepted or discarded.
    pub open spec fn balanced(self) -> bool {
        self.total_speculations == self.accepted_count + self.discarded_count
    }

    /// The counts after one more result.
    pub open spec fn counts(self, before: Self, result: SpeculationResult) -> bool {
        &&& self.total_speculations == before.total_speculations + 1
        &&& self.accepted_count == before.accepted_count + (if result.accepted {
            1int
        } else {
            0
        })
        &&& self.discarded_count == before.discarded_count + (if result.accepted {
            0int
        } else {
            1
        })
        &&& self.time_saved_ms == before.time_saved_ms + (if result.accepted {
            result.duration_ms as int
        } else {
            0
        })
    }

    /// Count one result: time is saved by accepted speculations only.
    pub fn record(&mut self, result: &SpeculationResult)
        requires
            old(self).total_speculations < u32::MAX,
            result.accepted ==> old(self).accepted_count < u32::MAX && old(self).time_saved_ms
                + result.duration_ms <= u64::MAX,
            !result.accepted ==> old(self).discarded_count < u32::MAX,
        ensures
            final(self).counts(*old(self), *result),
            old(self).balanced() ==> final(self).balanced(),
    {
        self.total_speculations += 1;
        if result.accepted {
            self.accepted_count += 1;
            self.time_saved_ms += result.duration_ms;
        } else {
            self.discarded_count += 1;
        }
    }
}

// ── predicting the next prompt ──────────────────────────────────────────

/// Least idle time after an assistant response before a prediction, in seconds.
pub const PREDICTION_IDLE_SECS: u64 = 2;

/// Most recent messages that a prediction looks at.
pub const PREDICTION_CONTEXT_WINDOW: usize = 6;

/// Summary of a message for prediction purposes.
#[derive(Debug, Clone)]
pub struct MessageSummary {
    pub role: MessageRole,
    pub text: String,
    /// Names of the tools used in this message.
    pub tools_used: Vec<String>,
}

#[derive(Debug, Clone, Copy, PartialEq, Eq, Structural)]
pub enum MessageRole {
    User,
    Assistant,
}

/// A predicted next prompt.
#[derive(Debug)]
pub struct PromptPrediction {
    pub predicted_prompt: String,
    /// Confidence in tenths, from 3 to 7.
    pub confidence_tenths: u8,
    pub generated_at: Instant,
}

/// Prediction state across ticks: one attempt for each idle period.
#[derive(Debug)]
pub struct PromptPredictor {
    /// The prediction of this idle period, if there is one.
    pub current: Option<PromptPrediction>,
    /// When the last assistant response completed.
    pub last_response_at: Option<Instant>,
    /// Whether a prediction was attempted in this idle period.
    pub prediction_attempted: bool,
}

/// The last of the messages that a prediction looks at.
pub open spec fn prediction_window(msgs: Seq<MessageSummary>) -> Seq<MessageSummary> {
    if msgs.len() > PREDICTION_CONTEXT_WINDOW {
        msgs.skip(msgs.len() - PREDICTION_CONTEXT_WINDOW)
    } else {
        msgs
    }
}

/// The last assistant message.
pub open spec fn last_assistant(msgs: Seq<MessageSummary>) -> Option<MessageSummary>
    decreases msgs.len(),
{
    if msgs.len() == 0 {
        None
    } else if msgs.last().role == MessageRole::Assistant {
        Some(msgs.last())
    } else {
        last_assistant(msgs.drop_last())
    }
}

/// Number of user messages.
pub open spec fn user_count(msgs: Seq<MessageSummary>) -> nat
    decreases msgs.len(),
{
    if msgs.len() == 0 {
        0
    } else {
        user_count(msgs.drop_last()) + (if msgs.last().role == MessageRole::User {
            1nat
        } else {
            0
        })
    }
}

/// The text, in lower case, offers to do something.
pub open spec fn offers(lower: Seq<char>) -> bool {
    has_text(lower, "should i"@) || has_text(lower, "shall i"@) || has_text(lower, "do you want"@)
        || has_text(lower, "would you like"@)
}

/// Whether the text, in lower case, offers to do something.
pub fn is_offer(lower: &str) -> (r: bool)
    ensures
        r == offers(lower@),
{
    contains(lower, "should i") || contains(lower, "shall i") || contains(lower, "do you want") || contains(
        lower,
        "would you like",
    )
}

/// Some of the tools writes files.
pub open spec fn wrote_files(tools: Seq<Seq<char>>) -> bool {
    exists|i: int|
        0 <= i < tools.len() && ((#[trigger] tools[i]) == "Write"@ || tools[i] == "Edit"@ || tools[i]
            == "MultiEdit"@)
}

/// The prompt that probably comes next.
pub open spec fn predicted(msgs: Seq<MessageSummary>) -> Option<Seq<char>> {
    let window = prediction_window(msgs);
    match last_assistant(window) {
        None => None,
        Some(m) => {
            let text = trimmed(m.text@);
            if has_suffix(text, "?"@) {
                if offers(lowercase(text)) {
                    Some("yes, go ahead"@)
                } else {
                    None
                }
            } else if wrote_files(texts(m.tools_used@)) {
                Some("run the tests to verify the changes work"@)
            } else if has_text(text, "error"@) || has_text(text, "failed"@) || has_text(
                text,
                "Error"@,
            ) {
                Some("fix that error"@)
            } else if (has_text(text, "Done"@) || has_text(text, "complete"@) || has_text(
                text,
                "finished"@,
            )) && user_count(window) >= 2 {
                Some("continue with the next step"@)
            } else {
                None
            }
        },
    }
}

fn any_write(tools: &Vec<String>) -> (r: bool)
    ensures
        r == wrote_files(texts(tools@)),
{
    let mut i: usize = 0;
    while i < tools.len()
        invariant
            i <= tools@.len(),
            forall|j: int|
                0 <= j < i ==> !((#[trigger] texts(tools@)[j]) == "Write"@ || texts(tools@)[j]
                    == "Edit"@ || texts(tools@)[j] == "MultiEdit"@),
        decreases tools@.len() - i,
    {
        let t = tools[i].as_str();
        assert(texts(tools@)[i as int] == t@);
        if same_text(t, "Write") || same_text(t, "Edit") || same_text(t, "MultiEdit") {
            return true;
        }
        i += 1;
    }
    false
}

/// Predict the user's next prompt from recent conversation, by what the last
/// assistant message did: it offered something, edited files, showed an error,
/// or finished a step of several. `None` where no guess is good enough.
pub fn predict_next_prompt(last_messages: &[MessageSummary]) -> (r: Option<String>)
    ensures
        opt_text(r) == predicted(last_messages@),
{
    let total: usize = last_messages.len();
    let start: usize = if total > PREDICTION_CONTEXT_WINDOW {
        total - PREDICTION_CONTEXT_WINDOW
    } else {
        0
    };
    let ghost window = prediction_window(last_messages@);
    assert(window =~= last_messages@.skip(start as int));
    let mut users: usize = 0;
    let mut found: Option<usize> = None;
    let mut i: usize = start;
    assert(window.take(0) =~= Seq::<MessageSummary>::empty());
    while i < total
        invariant
            start <= i <= total,
            total == last_messages@.len(),
            window == last_messages@.skip(start as int),
            users == user_count(window.take(i - start)),
            users <= i - start,
            match found {
                Some(k) => start <= k < i && last_assistant(window.take(i - start)) == Some(
                    last_messages@[k as int],
                ),
                None => last_assistant(window.take(i - start)) is None,
            },
        decreases total - i,
    {
        let ghost next = window.take(i - start + 1);
        assert(next.drop_last() =~= window.take(i - start));
        assert(next.last() == last_messages@[i as int]);
        match last_messages[i].role {
            MessageRole::User => {
                users += 1;
            },
            MessageRole::Assistant => {
                found = Some(i);
            },
        }
        i += 1;
    }
    assert(window.take(window.len() as int) =~= window);
    let at = match found {
        Some(k) => k,
        None => {
            return None;
        },
    };
    let message = &last_messages[at];
    let text = trim(message.text.as_str());
    if ends_with(text.as_str(), "?") {
        let lower = to_lowercase(text.as_str());
        if is_offer(lower.as_str()) {
            return Some("yes, go ahead".to_owned());
        }
        return None;
    }
    if any_write(&message.tools_used) {
        return Some("run the tests to verify the changes work".to_owned());
    }
    if contains(text.as_str(), "error") || contains(text.as_str(), "failed") || contains(
        text.as_str(),
        "Error",
    ) {
        return Some("fix that error".to_owned());
    }
    if contains(text.as_str(), "Done") || contains(text.as_str(), "complete") || contains(
        text.as_str(),
        "finished",
    ) {
        if users >= 2 {
            return Some("continue with the next step".to_owned());
        }
    }
    None
}

/// Number of user messages that take fewer than 30 bytes.
pub open spec fn short_user_count(msgs: Seq<MessageSummary>) -> nat
    decreases msgs.len(),
{
    if msgs.len() == 0 {
        0
    } else {
        short_user_count(msgs.drop_last()) + (if msgs.last().role == MessageRole::User && utf8_size(
            msgs.last().text@,
        ) < 30 {
            1nat
        } else {
            0
        })
    }
}

/// Confidence in tenths: three to begin with, more for a longer context, for
/// tools in the last message and for short user messages.
pub open spec fn confidence(msgs: Seq<MessageSummary>) -> nat {
    3 + (if msgs.len() >= 4 {
        1nat
    } else {
        0
    }) + (if msgs.len() > 0 && msgs.last().tools_used@.len() > 0 {
        2nat
    } else {
        0
    }) + (if short_user_count(msgs) >= 2 {
        1nat
    } else {
        0
    })
}

/// Estimate the confidence of a prediction, in tenths.
pub fn estimate_confidence(messages: &[MessageSummary]) -> (r: u8)
    ensures
        r == confidence(messages@),
        3 <= r <= 7,
{
    let mut tenths: u8 = 3;
    if messages.len() >= 4 {
        tenths += 1;
    }
    if messages.len() > 0 && messages[messages.len() - 1].tools_used.len() > 0 {
        tenths += 2;
    }
    let mut short: usize = 0;
    let mut i: usize = 0;
    assert(messages@.take(0) =~= Seq::<MessageSummary>::empty());
    while i < messages.len()
        invariant
            i <= messages@.len(),
            short == short_user_count(messages@.take(i as int)),
            short <= i,
        decreases messages@.len() - i,
    {
        assert(messages@.take(i + 1).drop_last() =~= messages@.take(i as int));
        assert(messages@.take(i + 1).last() == messages@[i as int]);
        if messages[i].role == MessageRole::User && !longer_than_bytes(messages[i].text.as_str(), 29) {
            short += 1;
        }
        i += 1;
    }
    assert(messages@.take(i as int) =~= messages@);
    if short >= 2 {
        tenths += 1;
    }
    tenths
}

impl Default for PromptPredictor {
    fn default() -> (r: Self)
        ensures
            r.current is None,
            r.last_response_at is None,
            !r.prediction_attempted,
    {
        Self::new()
    }
}

impl PromptPredictor {
    pub fn new() -> (r: Self)
        ensures
            r.current is None,
            r.last_response_at is None,
            !r.prediction_attempted,
    {
        PromptPredictor { current: None, last_response_at: None, prediction_attempted: false }
    }

    /// An assistant response just completed: the idle clock starts.
    pub fn on_assistant_response(&mut self, now: Instant)
        ensures
            *final(self) == old(self).answered(now),
    {
        self.last_response_at = Some(now);
        self.prediction_attempted = false;
        self.current = None;
    }

    /// The user submitted a prompt: everything is reset.
    pub fn on_user_prompt(&mut self)
        ensures
            *final(self) == old(self).prompted(),
    {
        self.last_response_at = None;
        self.prediction_attempted = false;
        self.current = None;
    }

    /// An attempt is due: none was made in this idle period, the user has been
    /// idle long enough, and there is something to predict from.
    pub open spec fn attempt_due(self, idle: nat, msgs: Seq<MessageSummary>) -> bool {
        !self.prediction_attempted && idle >= PREDICTION_IDLE_SECS * 1_000_000_000 && msgs.len() > 0
    }

    /// The predictor after an answer of the assistant.
    pub open spec fn answered(self, now: Instant) -> Self {
        PromptPredictor { last_response_at: Some(now), prediction_attempted: false, current: None, ..self }
    }

    /// The predictor after a prompt of the user.
    pub open spec fn prompted(self) -> Self {
        PromptPredictor { last_response_at: None, prediction_attempted: false, current: None, ..self }
    }

    /// The predictor after its prediction was taken.
    pub open spec fn taken(self) -> Self {
        PromptPredictor { current: None, ..self }
    }

    /// The predictor after it was asked, with its answer.
    pub open spec fn is_attempt(
        self,
        before: Self,
        idle: nat,
        msgs: Seq<MessageSummary>,
        now: Instant,
        answer: Option<Seq<char>>,
    ) -> bool {
        &&& answer == (if before.attempt_due(idle, msgs) {
            predicted(msgs)
        } else {
            None
        })
        &&& self.prediction_attempted == (before.prediction_attempted || before.attempt_due(idle, msgs))
        &&& self.last_response_at == before.last_response_at
        &&& answer is None ==> self.current == before.current
        &&& answer is Some ==> self.current is Some && self.current->0.predicted_prompt@ == answer->0
            && self.current->0.confidence_tenths == confidence(msgs) && self.current->0.generated_at == now
    }

    /// Check whether to speculate, and on which prompt. At most one attempt is
    /// made in each idle period.
    pub fn should_speculate(
        &mut self,
        idle_duration: Duration,
        last_messages: &[MessageSummary],
        now: Instant,
    ) -> (r: Option<String>)
        ensures
            final(self).is_attempt(*old(self), idle_duration@, last_messages@, now, opt_text(r)),
    {
        if self.prediction_attempted {
            return None;
        }
        if idle_duration.is_shorter_than(&Duration::from_secs(PREDICTION_IDLE_SECS)) {
            return None;
        }
        if last_messages.len() == 0 {
            return None;
        }
        self.prediction_attempted = true;
        match predict_next_prompt(last_messages) {
            None => None,
            Some(prediction) => {
                self.current = Some(
                    PromptPrediction {
                        predicted_prompt: prediction.clone(),
                        confidence_tenths: estimate_confidence(last_messages),
                        generated_at: now,
                    },
                );
                Some(prediction)
            },
        }
    }

    /// Consume the current prediction.
    pub fn take_prediction(&mut self) -> (r: Option<PromptPrediction>)
        ensures
            r == old(self).current,
            *final(self) == old(self).taken(),
    {
        self.current.take()
    }
}

/// A tool that may write is none of those that only read.
pub proof fn law_write_tools_do_not_only_read(name: Seq<char>)
    requires
        is_writing_tool(name),
    ensures
        !is_reading_tool(name),
{
    reveal_strlit("Read");
    reveal_strlit("Glob");
    reveal_strlit("Grep");
    reveal_strlit("ToolSearch");
    reveal_strlit("WebFetch");
    reveal_strlit("Write");
    reveal_strlit("Edit");
    assert("Write"@[0] == 'W' && "Write"@.len() == 5);
    assert("Edit"@[0] == 'E' && "Edit"@.len() == 4);
    assert("Read"@[0] == 'R' && "Glob"@[0] == 'G' && "Grep"@[0] == 'G');
    assert("ToolSearch"@.len() == 10 && "WebFetch"@.len() == 8);
}

/// Without an overlay nothing is redirected, and neither is a path that does not
/// lie under the real directory or climbs out of it.
pub proof fn law_overlay_redirects_only_inside(session: OverlaySession, real_path: Seq<char>)
    ensures
        overlay_target(None, real_path) is None,
        ({
            let abs = path_under(session.real_cwd@, real_path);
            !lies_under(abs, session.real_cwd@) || climbs(
                components(abs).skip(components(session.real_cwd@).len() as int),
            ) ==> overlay_target(Some(session), real_path) is None
        }),
{
}

/// A redirected write lands at or below the overlay root, with every `..` on the
/// way followed.
pub proof fn law_overlay_never_leaks(session: OverlaySession, real_path: Seq<char>)
    requires
        overlay_target(Some(session), real_path) is Some,
    ensures
        leads_under(overlay_target(Some(session), real_path)->0, session.overlay_root@),
{
    let abs = path_under(session.real_cwd@, real_path);
    crate::paths::lemma_moved_leads_under(
        session.overlay_root@,
        abs,
        components(session.real_cwd@).len() as int,
    );
}

/// What is redirected would itself have been written at or below the real
/// directory, with every `..` on the way followed.
pub proof fn law_only_writes_inside_are_redirected(session: OverlaySession, real_path: Seq<char>)
    requires
        overlay_target(Some(session), real_path) is Some,
    ensures
        leads_under(path_under(session.real_cwd@, real_path), session.real_cwd@),
{
    let cwd = session.real_cwd@;
    crate::paths::lemma_stays_leads_under(path_under(cwd, real_path), cwd);
}

/// An accepted file lands at or below the real directory, with every `..` on the
/// way followed.
pub proof fn law_accepting_never_leaks(session: OverlaySession, file: Seq<char>)
    requires
        accepted_target(session, file) is Some,
    ensures
        leads_under(accepted_target(session, file)->0, session.real_cwd@),
{
    crate::paths::lemma_moved_leads_under(
        session.real_cwd@,
        file,
        components(session.overlay_root@).len() as int,
    );
}

/// What was written through the overlay comes back to its own place when the
/// speculation is accepted. A path that begins with `.` has no other spelling
/// under an empty directory.
pub proof fn law_accepting_restores_the_place(session: OverlaySession, real_path: Seq<char>)
    requires
        session.real_cwd@.len() > 0 || components(real_path).len() == 0 || components(real_path)[0] != "."@,
        overlay_target(Some(session), real_path) is Some,
    ensures
        ({
            let back = accepted_target(session, overlay_target(Some(session), real_path)->0);
            back is Some && same_path(back->0, path_under(session.real_cwd@, real_path))
        }),
{
    let cwd = session.real_cwd@;
    let root = session.overlay_root@;
    let abs = path_under(cwd, real_path);
    let n = components(cwd).len() as int;
    let rest = components(abs).skip(n);
    if cwd.len() > 0 && !is_absolute(cwd) {
        crate::paths::lemma_relative_has_names(cwd);
    }
    if n > 0 {
        crate::paths::lemma_later_components_are_clean(abs, n);
    } else {
        assert(abs =~= real_path);
        crate::paths::lemma_rest_is_clean(abs, n);
        assert forall|i: int| 0 <= i < rest.len() implies crate::paths::is_clean(#[trigger] rest[i]) by {
            if i > 0 {
                assert(crate::paths::is_clean(rest.skip(1)[i - 1]));
            }
        }
    }
    crate::paths::lemma_components_of_joined(root, rest);
    crate::paths::lemma_components_of_joined(cwd, rest);
    let there = overlay_target(Some(session), real_path)->0;
    assert(components(there) == components(root) + rest);
    assert(components(root) =~= components(there).subrange(0, components(root).len() as int));
    assert(components(there).skip(components(root).len() as int) =~= rest);
    assert(components(cwd) + rest =~= components(abs)) by {
        assert(components(cwd) =~= components(abs).subrange(0, n));
    }
}

/// What is predicted rests on the last six messages: whatever was said before them does
/// not matter.
pub proof fn law_old_messages_do_not_predict(
    old_ones: Seq<MessageSummary>,
    others: Seq<MessageSummary>,
    last: Seq<MessageSummary>,
)
    requires
        last.len() == 6,
    ensures
        predicted(old_ones + last) == predicted(others + last),
{
    lemma_window_of_sum(old_ones, last);
    lemma_window_of_sum(others, last);
}

proof fn lemma_window_of_sum(first: Seq<MessageSummary>, last: Seq<MessageSummary>)
    requires
        last.len() == 6,
    ensures
        prediction_window(first + last) == last,
{
    assert((first + last).skip(first.len() as int) =~= last);
    if first.len() == 0 {
        assert(first + last =~= last);
    }
}

proof fn lemma_last_speaks(msgs: Seq<MessageSummary>, m: MessageSummary)
    requires
        m.role == MessageRole::Assistant,
    ensures
        last_assistant(prediction_window(msgs.push(m))) == Some(m),
{
    let all = msgs.push(m);
    let window = prediction_window(all);
    assert(window.len() > 0);
    assert(window.last() == m);
}

/// An offer is taken up, and another question is left to the user.
pub proof fn law_offers_are_taken_up(msgs: Seq<MessageSummary>, m: MessageSummary)
    requires
        m.role == MessageRole::Assistant,
        has_suffix(trimmed(m.text@), "?"@),
    ensures
        has_text(lowercase(trimmed(m.text@)), "should i"@) || has_text(lowercase(trimmed(m.text@)), "would you like"@)
            || has_text(lowercase(trimmed(m.text@)), "shall i"@) || has_text(
            lowercase(trimmed(m.text@)),
            "do you want"@,
        ) ==> predicted(msgs.push(m)) == Some("yes, go ahead"@),
        !has_text(lowercase(trimmed(m.text@)), "should i"@) && !has_text(
            lowercase(trimmed(m.text@)),
            "would you like"@,
        ) && !has_text(lowercase(trimmed(m.text@)), "shall i"@) && !has_text(
            lowercase(trimmed(m.text@)),
            "do you want"@,
        ) ==> predicted(msgs.push(m)) is None,
{
    lemma_last_speaks(msgs, m);
}

/// After a change of files the tests are next, whatever else was said, and after an
/// error its repair.
pub proof fn law_changes_are_tested_and_errors_repaired(msgs: Seq<MessageSummary>, m: MessageSummary, k: int)
    requires
        m.role == MessageRole::Assistant,
        !has_suffix(trimmed(m.text@), "?"@),
    ensures
        0 <= k < m.tools_used@.len() && (m.tools_used@[k]@ == "Write"@ || m.tools_used@[k]@ == "Edit"@
            || m.tools_used@[k]@ == "MultiEdit"@) ==> predicted(msgs.push(m)) == Some(
            "run the tests to verify the changes work"@,
        ),
        m.tools_used@.len() == 0 && (has_text(trimmed(m.text@), "error"@) || has_text(trimmed(m.text@), "failed"@))
            ==> predicted(msgs.push(m)) == Some("fix that error"@),
{
    lemma_last_speaks(msgs, m);
    let tools = texts(m.tools_used@);
    if 0 <= k < m.tools_used@.len() {
        assert(tools[k] == m.tools_used@[k]@);
    }
}

/// Nothing is predicted where the assistant has said nothing.
pub proof fn law_silence_predicts_nothing(msgs: Seq<MessageSummary>)
    requires
        forall|i: int| 0 <= i < msgs.len() ==> (#[trigger] msgs[i]).role == MessageRole::User,
    ensures
        predicted(msgs) is None,
{
    let window = prediction_window(msgs);
    assert forall|i: int| 0 <= i < window.len() implies (#[trigger] window[i]).role == MessageRole::User by {
        assert(window[i] == msgs[msgs.len() - window.len() + i]);
    }
    lemma_nobody_speaks(window);
}

proof fn lemma_nobody_speaks(msgs: Seq<MessageSummary>)
    requires
        forall|i: int| 0 <= i < msgs.len() ==> (#[trigger] msgs[i]).role == MessageRole::User,
    ensures
        last_assistant(msgs) is None,
    decreases msgs.len(),
{
    if msgs.len() > 0 {
        assert(msgs[msgs.len() - 1].role == MessageRole::User);
        let front = msgs.drop_last();
        assert forall|i: int| 0 <= i < front.len() implies (#[trigger] front[i]).role == MessageRole::User by {
            assert(front[i] == msgs[i]);
        }
        lemma_nobody_speaks(front);
    }
}

/// One attempt is made for a pause, after two seconds, and none without messages.
pub proof fn law_one_attempt_for_a_pause(p: PromptPredictor, idle: nat, msgs: Seq<MessageSummary>)
    ensures
        p.prediction_attempted ==> !p.attempt_due(idle, msgs),
        idle < 2_000_000_000 ==> !p.attempt_due(idle, msgs),
        msgs.len() == 0 ==> !p.attempt_due(idle, msgs),
        !p.prediction_attempted && idle >= 2_000_000_000 && msgs.len() > 0 ==> p.attempt_due(idle, msgs),
{
}

/// The surer a prediction, the more speaks for it: a longer conversation, tools that were
/// just used, and a user who answers in few words.
pub proof fn law_signs_add_to_the_confidence(msgs: Seq<MessageSummary>)
    ensures
        3 <= confidence(msgs) <= 7,
        msgs.len() == 0 ==> confidence(msgs) == 3,
        msgs.len() >= 4 ==> confidence(msgs) >= 4,
        msgs.len() > 0 && msgs.last().tools_used@.len() > 0 ==> confidence(msgs) >= 5,
        msgs.len() >= 4 && msgs.last().tools_used@.len() > 0 && short_user_count(msgs) >= 2 ==> confidence(msgs) == 7,
        0 < msgs.len() < 4 && msgs.last().tools_used@.len() == 0 && short_user_count(msgs) < 2 ==> confidence(msgs) == 3,
{
}

/// A speculation may read and write, but never run anything.
pub proof fn law_speculation_runs_nothing(name: &str, r: bool)
    requires
        call_ensures(SpeculationSession::is_tool_allowed, (name,), r),
    ensures
        r ==> name@ == "Read"@ || name@ == "Glob"@ || name@ == "Grep"@ || name@ == "ToolSearch"@ || name@ == "WebFetch"@
            || name@ == "Write"@ || name@ == "Edit"@,
        name@ == "Write"@ || name@ == "Edit"@ || name@ == "Read"@ ==> r,
        name@ == "Bash"@ ==> !r,
{
    reveal_strlit("Bash");
    reveal_strlit("Read");
    reveal_strlit("Glob");
    reveal_strlit("Grep");
    reveal_strlit("ToolSearch");
    reveal_strlit("WebFetch");
    reveal_strlit("Write");
    reveal_strlit("Edit");
    assert("Bash"@[0] == 'B' && "Read"@[0] == 'R' && "Glob"@[0] == 'G' && "Grep"@[0] == 'G');
    assert("ToolSearch"@[0] == 'T' && "WebFetch"@[0] == 'W' && "Write"@[0] == 'W' && "Edit"@[0] == 'E');
}

/// Every result is counted once, as accepted or as discarded, and time is saved only by
/// what was accepted.
pub proof fn law_every_result_is_counted_once(after: SpeculationStats, before: SpeculationStats, result: SpeculationResult)
    requires
        after.counts(before, result),
    ensures
        after.total_speculations == before.total_speculations + 1,
        result.accepted ==> after.accepted_count == before.accepted_count + 1 && after.discarded_count
            == before.discarded_count && after.time_saved_ms == before.time_saved_ms + result.duration_ms,
        !result.accepted ==> after.discarded_count == before.discarded_count + 1 && after.accepted_count
            == before.accepted_count && after.time_saved_ms == before.time_saved_ms,
{
}

/// A path that was written is listed, once, and those before it stay.
pub proof fn law_written_paths_are_listed_once(paths: Seq<Seq<char>>, path: Seq<char>)
    ensures
        has_path(with_written(paths, path), path),
        with_written(paths, path).len() <= paths.len() + 1,
        with_written(paths, path).take(paths.len() as int) == paths,
        has_path(paths, path) ==> with_written(paths, path) == paths,
        with_written(with_written(paths, path), path) == with_written(paths, path),
{
    let more = with_written(paths, path);
    assert(paths.take(paths.len() as int) =~= paths);
    if !has_path(paths, path) {
        assert(more[paths.len() as int] == path);
        assert(more.take(paths.len() as int) =~= paths);
    }
}

/// A prediction is kept as it was given, with how sure it is, and a second attempt in the
/// same pause changes nothing.
pub proof fn law_predictions_are_kept(
    after: PromptPredictor,
    before: PromptPredictor,
    idle: nat,
    msgs: Seq<MessageSummary>,
    now: Instant,
    answer: Option<Seq<char>>,
)
    requires
        after.is_attempt(before, idle, msgs, now, answer),
    ensures
        answer is Some ==> after.current is Some && after.current->0.predicted_prompt@ == answer->0
            && after.current->0.generated_at == now,
        answer is Some ==> after.prediction_attempted && !before.prediction_attempted && idle >= 2_000_000_000,
        before.prediction_attempted ==> answer is None && after.current == before.current,
        !after.prediction_attempted ==> answer is None,
        after.last_response_at == before.last_response_at,
{
}

/// A new turn forgets the prediction and allows another; a prediction is handed out once,
/// and taking it allows no other in the same pause.
pub proof fn law_predictions_are_handed_out_once(p: PromptPredictor, now: Instant)
    ensures
        p.answered(now).current is None && p.prompted().current is None && p.taken().current is None,
        !p.answered(now).prediction_attempted && !p.prompted().prediction_attempted,
        p.answered(now).last_response_at == Some(now),
        p.prompted().last_response_at is None,
        p.taken().prediction_attempted == p.prediction_attempted,
        p.taken().last_response_at == p.last_response_at,
        p.taken().taken() == p.taken(),
{
}

/// Every message of the user counts once, and no other.
pub proof fn law_user_messages_are_counted(msgs: Seq<MessageSummary>, m: MessageSummary)
    ensures
        m.role == MessageRole::User ==> user_count(msgs.push(m)) == user_count(msgs) + 1,
        m.role != MessageRole::User ==> user_count(msgs.push(m)) == user_count(msgs),
        user_count(msgs) <= msgs.len(),
    decreases msgs.len(),
{
    assert(msgs.push(m).drop_last() =~= msgs);
    if msgs.len() > 0 {
        law_user_messages_are_counted(msgs.drop_last(), m);
    }
}

} // verus!
