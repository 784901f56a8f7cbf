//! What happens on every tick of the event loop.
//!
//! A tick advances the spinner, shows what has been received, samples the token
//! rate, greets a user who comes back, drains a queue that nothing else drains,
//! arms a compaction, and decides which housekeeping is due and whether to draw.
//! What leaves the process is left to the caller: it performs what a plan says.
use std::collections::VecDeque;

use vstd::prelude::*;

use crate::away::AwayState;
use crate::queue::{drain_queued_prompts, is_drained, DrainPlan, TurnState};
use crate::slicing::opt_text;
use crate::spinner::{
    fresh_samples, next_phase, phase_after, trim_token_samples, window_start, RawPhaseInputs,
    SpinnerState,
};
use crate::status::PermissionMode;
use crate::stream_pacer::{display_line_count, is_first_lines, line_count, StreamPacer};
use crate::text::{cat2, cat3, cat6, count_text, decimal, same_text};
use crate::time::{Duration, Instant};
use crate::transcript::{ChatMessage, MessagePart};

verus! {

// ── clocks ──────────────────────────────────────────────────────────────

/// At least `millis` have passed since `last`, or it never happened.
pub open spec fn is_due(last: Option<Instant>, now: Instant, millis: nat) -> bool {
    match last {
        Some(t) => now.since(t) / 1_000_000 >= millis,
        None => true,
    }
}

/// Whether something that happens every `millis` is due.
pub fn due(last: Option<Instant>, now: Instant, millis: u64) -> (r: bool)
    ensures
        r == is_due(last, now, millis as nat),
{
    match last {
        Some(t) => now.duration_since(t).as_millis() >= millis as u128,
        None => true,
    }
}

/// The last time something happened, once it was checked at `now`.
pub open spec fn clock_after(last: Option<Instant>, now: Instant, millis: nat) -> Option<Instant> {
    if is_due(last, now, millis) {
        Some(now)
    } else {
        last
    }
}

fn take_due(last: &mut Option<Instant>, now: Instant, millis: u64) -> (r: bool)
    ensures
        r == is_due(*old(last), now, millis as nat),
        *final(last) == clock_after(*old(last), now, millis as nat),
{
    let r = due(*last, now, millis);
    if r {
        *last = Some(now);
    }
    r
}

// ── the spinner ─────────────────────────────────────────────────────────

/// What the engine is doing at a tick.
#[derive(Debug, Clone, Copy)]
pub struct EngineSignals {
    pub turn_started: bool,
    pub is_streaming: bool,
    pub thinking_started: bool,
    pub thinking_ended: bool,
    pub compacting: bool,
    pub network_recovery: bool,
    pub response_bytes: usize,
    pub tools_pending: bool,
}

impl EngineSignals {
    pub open spec fn turn_active(self) -> bool {
        self.turn_started || self.is_streaming
    }

    pub open spec fn thinking_live(self) -> bool {
        self.thinking_started && !self.thinking_ended
    }

    /// The inputs of the phase machine.
    pub open spec fn raw(self) -> RawPhaseInputs {
        RawPhaseInputs {
            compacting: self.compacting,
            network_recovery: self.network_recovery,
            is_streaming: self.is_streaming,
            thinking_live: self.thinking_live(),
            thinking_ended: self.thinking_ended,
            output_started: self.response_bytes > 0,
            tools_pending: self.tools_pending,
            turn_active: self.turn_active(),
        }
    }
}

/// When thinking was first seen in this turn.
pub open spec fn first_seen_after(s: SpinnerState, e: EngineSignals, now: Instant) -> Option<Instant> {
    if !e.turn_active() {
        None
    } else if e.thinking_live() && s.thinking_first_seen_at is None {
        Some(now)
    } else {
        s.thinking_first_seen_at
    }
}

/// The spinner after a tick.
pub open spec fn spinner_after(s: SpinnerState, e: EngineSignals, now: Instant) -> SpinnerState {
    let first_seen = first_seen_after(s, e, now);
    let next = phase_after(s.phase, s.entered_at, first_seen, now, e.raw());
    SpinnerState {
        phase: next,
        entered_at: if next != s.phase {
            now
        } else {
            s.entered_at
        },
        thinking_first_seen_at: first_seen,
    }
}

/// Advance the spinner by one tick.
pub fn advance_spinner(s: &mut SpinnerState, e: EngineSignals, now: Instant)
    ensures
        *final(s) == spinner_after(*old(s), e, now),
{
    let turn_active = e.turn_started || e.is_streaming;
    let thinking_live = e.thinking_started && !e.thinking_ended;
    if !turn_active {
        s.thinking_first_seen_at = None;
    } else if thinking_live && s.thinking_first_seen_at.is_none() {
        s.thinking_first_seen_at = Some(now);
    }
    let raw = RawPhaseInputs {
        compacting: e.compacting,
        network_recovery: e.network_recovery,
        is_streaming: e.is_streaming,
        thinking_live,
        thinking_ended: e.thinking_ended,
        output_started: e.response_bytes > 0,
        tools_pending: e.tools_pending,
        turn_active,
    };
    let next = next_phase(s.phase, s.entered_at, s.thinking_first_seen_at, now, raw);
    if next != s.phase {
        s.phase = next;
        s.entered_at = now;
    }
}

// ── pacing ──────────────────────────────────────────────────────────────

/// The message that is being streamed, as far as pacing cares.
#[derive(Debug, Clone, Copy, PartialEq, Eq, Structural)]
pub struct StreamTail {
    pub index: Option<usize>,
    pub part_count: usize,
    /// The display lines of the last part, where that is text.
    pub lines: usize,
}

/// The message into which the answer is streamed.
pub open spec fn streamed_message(turn: TurnState) -> Option<ChatMessage> {
    match turn.streaming_assistant_idx {
        Some(i) => if i < turn.messages@.len() {
            Some(turn.messages@[i as int])
        } else {
            None
        },
        None => None,
    }
}

/// The text that is being received: the last part of the streamed message, where
/// that is text.
pub open spec fn received_text(turn: TurnState) -> Option<Seq<char>> {
    match streamed_message(turn) {
        Some(m) => if m.parts@.len() == 0 {
            None
        } else {
            match m.parts@.last() {
                MessagePart::Text(t) => Some(t@),
                _ => None,
            }
        },
        None => None,
    }
}

/// How many display lines have been received.
pub open spec fn lines_received(turn: TurnState) -> usize {
    match received_text(turn) {
        Some(t) => line_count(t),
        None => 0,
    }
}

/// The message that is being streamed, as far as pacing cares.
pub open spec fn tail_of(turn: TurnState) -> StreamTail {
    StreamTail {
        index: turn.streaming_assistant_idx,
        part_count: match streamed_message(turn) {
            Some(m) => m.parts@.len() as usize,
            None => 0,
        },
        lines: lines_received(turn),
    }
}

/// Where the stream of the turn stands.
pub fn stream_tail(turn: &TurnState) -> (r: StreamTail)
    ensures
        r == tail_of(*turn),
{
    let none = StreamTail { index: turn.streaming_assistant_idx, part_count: 0, lines: 0 };
    match turn.streaming_assistant_idx {
        Some(i) => if i < turn.messages.len() {
            let parts = &turn.messages[i].parts;
            let n: usize = parts.len();
            let lines: usize = if n == 0 {
                0
            } else {
                match &parts[n - 1] {
                    MessagePart::Text(t) => display_line_count(t.as_str()),
                    _ => 0,
                }
            };
            StreamTail { index: Some(i), part_count: n, lines }
        } else {
            none
        },
        None => none,
    }
}

/// What is being paced: the message and how many parts it has.
pub open spec fn paced_key(tail: StreamTail) -> Option<(usize, usize)> {
    match tail.index {
        Some(i) => Some((i, tail.part_count)),
        None => None,
    }
}

/// A pacer that has revealed nothing.
pub open spec fn fresh_pacer() -> StreamPacer {
    StreamPacer {
        policy: crate::chunking::AdaptiveChunkingPolicy {
            mode: crate::chunking::ChunkingMode::Smooth,
            calm_since: None,
            last_exit_at: None,
        },
        revealed: 0,
        backlog_since: None,
    }
}

/// The pacer after a tick: everything that has been received shows, and a stream
/// that has ended leaves nothing behind.
pub open spec fn paced_after(p: StreamPacer, key: Option<(usize, usize)>, streaming: bool, tail: StreamTail) -> StreamPacer {
    if streaming {
        StreamPacer {
            policy: if key != paced_key(tail) {
                fresh_pacer().policy
            } else {
                p.policy
            },
            revealed: tail.lines,
            backlog_since: None,
        }
    } else if key is Some {
        fresh_pacer()
    } else {
        p
    }
}

/// What is paced after a tick: nothing once the stream has ended.
pub open spec fn paced_key_after(streaming: bool, tail: StreamTail) -> Option<(usize, usize)> {
    if streaming {
        paced_key(tail)
    } else {
        None
    }
}

fn same_key(a: Option<(usize, usize)>, b: Option<(usize, usize)>) -> (r: bool)
    ensures
        r == (a == b),
{
    match (a, b) {
        (Some(x), Some(y)) => x.0 == y.0 && x.1 == y.1,
        (None, None) => true,
        _ => false,
    }
}

/// Follow the stream by one tick: what has been received is shown at once. A new
/// message, or a new part of it, starts over; so does the end of a stream. Tells
/// whether lines are held back.
pub fn pace_stream(
    pacer: &mut StreamPacer,
    key: &mut Option<(usize, usize)>,
    streaming: bool,
    tail: StreamTail,
) -> (r: bool)
    ensures
        *final(pacer) == paced_after(*old(pacer), *old(key), streaming, tail),
        *final(key) == paced_key_after(streaming, tail),
        streaming ==> final(pacer).revealed == tail.lines,
        !r,
{
    if streaming {
        let now_key = match tail.index {
            Some(i) => Some((i, tail.part_count)),
            None => None,
        };
        if !same_key(*key, now_key) {
            pacer.reset();
            *key = now_key;
        }
        pacer.reveal_all(tail.lines);
        pacer.is_catching_up(tail.lines)
    } else {
        if key.is_some() {
            *key = None;
            pacer.reset();
        }
        false
    }
}

/// While text comes in, a tick shows all of it.
pub proof fn law_received_text_shows(
    p: StreamPacer,
    key: Option<(usize, usize)>,
    turn: TurnState,
    text: Seq<char>,
    shown: Seq<char>,
)
    requires
        received_text(turn) == Some(text),
        crate::stream_pacer::display_lines(text) <= usize::MAX,
        is_first_lines(shown, text, paced_after(p, key, true, tail_of(turn)).revealed as nat),
    ensures
        shown == text,
{
    crate::stream_pacer::law_first_lines(
        shown,
        text,
        paced_after(p, key, true, tail_of(turn)).revealed as nat,
    );
}

// ── the token rate ──────────────────────────────────────────────────────

/// The samples after one more. A count that fell begins a new window.
pub open spec fn sampled(samples: Seq<(Duration, u64)>, elapsed: Duration, count: u64) -> Seq<(Duration, u64)> {
    let kept = if samples.len() > 0 && count < samples.last().1 {
        Seq::empty()
    } else {
        samples
    };
    let more = kept.push((elapsed, count));
    fresh_samples(more, window_start(more))
}

/// Sample the token count: that of the reasoning while the model is thinking,
/// else that of the output.
pub fn sample_tokens(
    samples: &mut VecDeque<(Duration, u64)>,
    elapsed: Duration,
    thinking_live: bool,
    thinking_tokens: u64,
    output_tokens: u64,
)
    ensures
        final(samples)@ == sampled(
            old(samples)@,
            elapsed,
            if thinking_live {
                thinking_tokens
            } else {
                output_tokens
            },
        ),
{
    let count: u64 = if thinking_live {
        thinking_tokens
    } else {
        output_tokens
    };
    let n: usize = samples.len();
    if n > 0 && count < samples[n - 1].1 {
        samples.clear();
    }
    samples.push_back((elapsed, count));
    trim_token_samples(samples);
}

// ── coming back ─────────────────────────────────────────────────────────

/// Seconds without any activity after which the user is greeted.
pub const IDLE_RETURN_SECS: u64 = 4500;

/// The greeting.
pub open spec fn welcome_words(tokens: nat) -> Seq<char> {
    "Welcome back! Context: ~"@ + decimal(tokens)
        + " tokens. Consider `/clear` to save on re-caching or `/compact` to trim."@
}

/// The user is greeted: once per absence, with a conversation that rests.
pub open spec fn welcome_due(shown: bool, streaming: bool, idle_secs: nat, message_count: nat) -> bool {
    !shown && !streaming && idle_secs >= IDLE_RETURN_SECS && message_count > 0
}

/// Greet a user who comes back after a long absence.
pub fn welcome_back(
    shown: &mut bool,
    streaming: bool,
    idle: Duration,
    message_count: usize,
    approx_tokens: usize,
) -> (r: Option<String>)
    ensures
        opt_text(r) == (if welcome_due(*old(shown), streaming, idle.secs(), message_count as nat) {
            Some(welcome_words(approx_tokens as nat))
        } else {
            None
        }),
        *final(shown) == (*old(shown) || welcome_due(
            *old(shown),
            streaming,
            idle.secs(),
            message_count as nat,
        )),
{
    if !*shown && !streaming && idle.as_secs() >= IDLE_RETURN_SECS && message_count > 0 {
        *shown = true;
        return Some(
            cat3(
                "Welcome back! Context: ~",
                count_text(approx_tokens).as_str(),
                " tokens. Consider `/clear` to save on re-caching or `/compact` to trim.",
            ),
        );
    }
    None
}

// ── idle work ───────────────────────────────────────────────────────────

/// What keeps the queue from being drained on a tick.
#[derive(Debug, Clone, Copy)]
pub struct IdleSignals {
    pub queued_prompts: usize,
    pub is_streaming: bool,
    pub turn_started: bool,
    pub question_pending: bool,
    pub pipeline_busy: bool,
}

/// Prompts wait and nothing is running that would drain them.
pub open spec fn drain_due(s: IdleSignals) -> bool {
    s.queued_prompts > 0 && !s.is_streaming && !s.turn_started && !s.question_pending && !s.pipeline_busy
}

/// Whether prompts wait that nothing else will drain.
pub fn idle_drain_due(s: IdleSignals) -> (r: bool)
    ensures
        r == drain_due(s),
{
    s.queued_prompts > 0 && !s.is_streaming && !s.turn_started && !s.question_pending && !s.pipeline_busy
}

/// Whether a compaction is armed.
#[derive(Debug, Clone, Copy, PartialEq, Eq, Structural)]
pub struct CompactArm {
    pub force_compact_pending: bool,
    pub speculative_compact_fired: bool,
}

/// The arm after a tick: it is set once, while nothing runs and the context is
/// close to its limit.
pub open spec fn armed_after(a: CompactArm, streaming: bool, compacting: bool, near_limit: bool) -> CompactArm {
    if !streaming && !compacting && !a.speculative_compact_fired && !a.force_compact_pending && near_limit {
        CompactArm { force_compact_pending: true, speculative_compact_fired: true }
    } else {
        a
    }
}

/// Arm a compaction before it is needed.
pub fn arm_compaction(a: &mut CompactArm, streaming: bool, compacting: bool, near_limit: bool)
    ensures
        *final(a) == armed_after(*old(a), streaming, compacting, near_limit),
{
    if !streaming && !compacting && !a.speculative_compact_fired && !a.force_compact_pending && near_limit {
        a.force_compact_pending = true;
        a.speculative_compact_fired = true;
    }
}

// ── counters ────────────────────────────────────────────────────────────

fn take_change(seen: &mut u64, current: u64) -> (r: bool)
    ensures
        r == (current > *old(seen)),
        *final(seen) == (if current > *old(seen) {
            current
        } else {
            *old(seen)
        }),
{
    if current > *seen {
        *seen = current;
        true
    } else {
        false
    }
}

// ── the plan ────────────────────────────────────────────────────────────

/// Clocks and counters that survive from tick to tick.
#[derive(Debug, Clone, Copy, PartialEq, Eq, Structural)]
pub struct TickClocks {
    pub spinner_frame: usize,
    pub last_detached_sync_at: Option<Instant>,
    pub snapshot_refreshed_at: Option<Instant>,
    pub last_heartbeat_at: Option<Instant>,
    pub worktree_count_last_refresh: Option<Instant>,
    pub git_branch_last_refresh: Option<Instant>,
    pub last_mcp_refresh_seen: u64,
    pub last_file_watcher_seen: u64,
    pub last_keybindings_seen: u64,
}

/// What the outside world looks like at a tick. Money is counted in billionths
/// of a dollar.
#[derive(Debug, Clone, Copy)]
pub struct TickInputs {
    pub now: Instant,
    /// How many frames the spinner has.
    pub spinner_len: usize,
    pub thinking_started: bool,
    pub thinking_ended: bool,
    pub compacting: bool,
    pub tools_pending: bool,
    pub question_pending: bool,
    pub pipeline_busy: bool,
    pub approx_tokens: usize,
    /// The context is close enough to its limit to prepare a compaction.
    pub near_limit: bool,
    pub total_cost: u64,
    pub has_oauth: bool,
    pub mcp_refresh_counter: u64,
    pub file_watcher_counter: u64,
    pub keybindings_counter: u64,
    /// The reminder about a changed configuration waits already.
    pub config_reminder_queued: bool,
    pub in_git_repo: bool,
    pub team_active: bool,
    pub team_named: bool,
    /// Something on the screen is moving.
    pub wants_animation: bool,
    /// Something else on the screen has changed since the last tick: a notice went
    /// away, or the transcript rolled on.
    pub other_change: bool,
}

/// The housekeeping of a tick.
#[derive(Debug, Clone, Copy, PartialEq, Eq, Structural)]
pub struct Housekeeping {
    pub sync_detached: bool,
    pub refresh_snapshot: bool,
    pub fire_heartbeat: bool,
    pub announce_mcp_change: bool,
    pub announce_config_change: bool,
    pub reload_keybindings: bool,
    pub count_worktrees: bool,
    pub read_git_branch: bool,
    pub poll_team: bool,
}

impl Housekeeping {
    /// The user is told of something.
    pub open spec fn tells_something(self) -> bool {
        self.announce_mcp_change || self.announce_config_change || self.reload_keybindings
    }
}

/// The frame that follows.
pub open spec fn next_frame(frame: usize, len: usize) -> usize {
    ((frame + 1) % (len as int)) as usize
}

/// The housekeeping of a tick.
pub open spec fn housekeeping_due(c: TickClocks, i: TickInputs) -> Housekeeping {
    Housekeeping {
        sync_detached: is_due(c.last_detached_sync_at, i.now, 1000),
        refresh_snapshot: is_due(c.snapshot_refreshed_at, i.now, 10_000) && i.has_oauth,
        fire_heartbeat: is_due(c.last_heartbeat_at, i.now, 30_000),
        announce_mcp_change: i.mcp_refresh_counter > c.last_mcp_refresh_seen,
        announce_config_change: i.file_watcher_counter > c.last_file_watcher_seen && !i.config_reminder_queued,
        reload_keybindings: i.keybindings_counter > c.last_keybindings_seen,
        count_worktrees: i.in_git_repo && is_due(c.worktree_count_last_refresh, i.now, 10_000),
        read_git_branch: i.in_git_repo && is_due(c.git_branch_last_refresh, i.now, 5_000),
        poll_team: i.team_active && i.team_named && next_frame(c.spinner_frame, i.spinner_len) % 12 == 0,
    }
}

/// The clocks after a tick.
pub open spec fn clocks_after(c: TickClocks, i: TickInputs) -> TickClocks {
    TickClocks {
        spinner_frame: next_frame(c.spinner_frame, i.spinner_len),
        last_detached_sync_at: clock_after(c.last_detached_sync_at, i.now, 1000),
        snapshot_refreshed_at: if i.has_oauth {
            clock_after(c.snapshot_refreshed_at, i.now, 10_000)
        } else {
            c.snapshot_refreshed_at
        },
        last_heartbeat_at: clock_after(c.last_heartbeat_at, i.now, 30_000),
        worktree_count_last_refresh: if i.in_git_repo {
            clock_after(c.worktree_count_last_refresh, i.now, 10_000)
        } else {
            c.worktree_count_last_refresh
        },
        git_branch_last_refresh: if i.in_git_repo {
            clock_after(c.git_branch_last_refresh, i.now, 5_000)
        } else {
            c.git_branch_last_refresh
        },
        last_mcp_refresh_seen: if i.mcp_refresh_counter > c.last_mcp_refresh_seen {
            i.mcp_refresh_counter
        } else {
            c.last_mcp_refresh_seen
        },
        last_file_watcher_seen: if i.file_watcher_counter > c.last_file_watcher_seen {
            i.file_watcher_counter
        } else {
            c.last_file_watcher_seen
        },
        last_keybindings_seen: if i.keybindings_counter > c.last_keybindings_seen {
            i.keybindings_counter
        } else {
            c.last_keybindings_seen
        },
    }
}

/// Decide which housekeeping is due, and advance the clocks.
fn keep_house(c: &mut TickClocks, i: &TickInputs) -> (r: Housekeeping)
    requires
        i.spinner_len > 0,
        old(c).spinner_frame < usize::MAX,
    ensures
        r == housekeeping_due(*old(c), *i),
        *final(c) == clocks_after(*old(c), *i),
{
    c.spinner_frame = (c.spinner_frame + 1) % i.spinner_len;
    let sync_detached = take_due(&mut c.last_detached_sync_at, i.now, 1000);
    let refresh_snapshot = i.has_oauth && take_due(&mut c.snapshot_refreshed_at, i.now, 10_000);
    let fire_heartbeat = take_due(&mut c.last_heartbeat_at, i.now, 30_000);
    let mcp = take_change(&mut c.last_mcp_refresh_seen, i.mcp_refresh_counter);
    let config = take_change(&mut c.last_file_watcher_seen, i.file_watcher_counter) && !i.config_reminder_queued;
    let keys = take_change(&mut c.last_keybindings_seen, i.keybindings_counter);
    let count_worktrees = i.in_git_repo && take_due(&mut c.worktree_count_last_refresh, i.now, 10_000);
    let read_git_branch = i.in_git_repo && take_due(&mut c.git_branch_last_refresh, i.now, 5_000);
    let poll_team = i.team_active && i.team_named && c.spinner_frame % 12 == 0;
    Housekeeping {
        sync_detached,
        refresh_snapshot,
        fire_heartbeat,
        announce_mcp_change: mcp,
        announce_config_change: config,
        reload_keybindings: keys,
        count_worktrees,
        read_git_branch,
        poll_team,
    }
}

// ── the tick ────────────────────────────────────────────────────────────

/// What survives from tick to tick, besides the turn.
#[derive(Debug)]
pub struct TickState {
    pub clocks: TickClocks,
    pub spinner: SpinnerState,
    pub pacer: StreamPacer,
    /// What is being paced: the message and how many parts it has.
    pub paced_key: Option<(usize, usize)>,
    pub rate_samples: VecDeque<(Duration, u64)>,
    pub compaction: CompactArm,
}

/// What a tick leaves to do.
#[derive(Debug)]
pub struct TickPlan {
    pub housekeeping: Housekeeping,
    /// The greeting of a user who comes back.
    pub greeting: Option<String>,
    /// What comes of the queue that was drained.
    pub drained: Option<DrainPlan>,
    pub needs_draw: bool,
}

/// What the engine is doing.
pub open spec fn signals_of(turn: TurnState, i: TickInputs) -> EngineSignals {
    EngineSignals {
        turn_started: turn.turn_started_at is Some,
        is_streaming: turn.is_streaming,
        thinking_started: i.thinking_started,
        thinking_ended: i.thinking_ended,
        compacting: i.compacting,
        network_recovery: turn.network_recovery_status is Some,
        response_bytes: turn.streaming_response_bytes,
        tools_pending: i.tools_pending,
    }
}

/// What keeps the queue from being drained.
pub open spec fn idle_of(turn: TurnState, i: TickInputs) -> IdleSignals {
    IdleSignals {
        queued_prompts: turn.queued_prompts@.len() as usize,
        is_streaming: turn.is_streaming,
        turn_started: turn.turn_started_at is Some,
        question_pending: i.question_pending,
        pipeline_busy: i.pipeline_busy,
    }
}

/// The tokens that are counted: those of the reasoning while the model is
/// thinking, else those of the output.
pub open spec fn live_count(turn: TurnState, i: TickInputs) -> u64 {
    if signals_of(turn, i).thinking_live() {
        turn.streaming_thinking_tokens
    } else {
        turn.turn_output_tokens
    }
}

/// The samples after a tick: one more while a stream runs.
pub open spec fn samples_after(samples: Seq<(Duration, u64)>, turn: TurnState, i: TickInputs) -> Seq<(Duration, u64)> {
    match turn.streaming_started_at {
        Some(t) => if turn.is_streaming {
            sampled(samples, Duration::lasting(i.now.since(t)), live_count(turn, i))
        } else {
            samples
        },
        None => samples,
    }
}

/// The user is greeted on this tick.
pub open spec fn greets(away: AwayState, turn: TurnState, i: TickInputs) -> bool {
    welcome_due(
        away.idle_return_shown,
        turn.is_streaming,
        i.now.since(away.last_user_activity_at) / 1_000_000_000,
        turn.messages@.len(),
    )
}

/// The screen is to be drawn after this tick.
pub open spec fn draws(c: TickClocks, turn: TurnState, away: AwayState, i: TickInputs) -> bool {
    i.wants_animation || i.other_change || greets(away, turn, i) || drain_due(idle_of(turn, i))
        || housekeeping_due(c, i).tells_something()
}

/// One tick: advance the spinner, show all that has been received, sample the
/// token rate, greet the user, drain the queue, arm a compaction, and decide what
/// else is due and whether to draw.
pub fn handle_tick(s: &mut TickState, turn: &mut TurnState, away: &mut AwayState, i: &TickInputs) -> (r: TickPlan)
    requires
        i.spinner_len > 0,
        old(s).clocks.spinner_frame < usize::MAX,
        drain_due(idle_of(*old(turn), *i)) ==> old(turn).total_user_turns < usize::MAX,
    ensures
        final(s).clocks == clocks_after(old(s).clocks, *i),
        final(s).clocks.spinner_frame < i.spinner_len,
        final(s).spinner == spinner_after(old(s).spinner, signals_of(*old(turn), *i), i.now),
        final(s).pacer == paced_after(
            old(s).pacer,
            old(s).paced_key,
            old(turn).is_streaming,
            tail_of(*old(turn)),
        ),
        old(turn).is_streaming ==> final(s).pacer.revealed == lines_received(*old(turn)),
        final(s).paced_key == paced_key_after(old(turn).is_streaming, tail_of(*old(turn))),
        final(s).rate_samples@ == samples_after(old(s).rate_samples@, *old(turn), *i),
        final(s).compaction == armed_after(
            old(s).compaction,
            final(turn).is_streaming,
            i.compacting,
            i.near_limit,
        ),
        *final(away) == (AwayState {
            idle_return_shown: old(away).idle_return_shown || greets(*old(away), *old(turn), *i),
            ..*old(away)
        }),
        opt_text(r.greeting) == (if greets(*old(away), *old(turn), *i) {
            Some(welcome_words(i.approx_tokens as nat))
        } else {
            None
        }),
        r.drained is Some <==> drain_due(idle_of(*old(turn), *i)),
        match r.drained {
            Some(plan) => is_drained(*final(turn), *old(turn), plan, i.now, i.total_cost),
            None => *final(turn) == *old(turn),
        },
        r.housekeeping == housekeeping_due(old(s).clocks, *i),
        r.needs_draw == draws(old(s).clocks, *old(turn), *old(away), *i),
{
    let signals = EngineSignals {
        turn_started: turn.turn_started_at.is_some(),
        is_streaming: turn.is_streaming,
        thinking_started: i.thinking_started,
        thinking_ended: i.thinking_ended,
        compacting: i.compacting,
        network_recovery: turn.network_recovery_status.is_some(),
        response_bytes: turn.streaming_response_bytes,
        tools_pending: i.tools_pending,
    };
    advance_spinner(&mut s.spinner, signals, i.now);
    let tail = stream_tail(turn);
    let held_back = pace_stream(&mut s.pacer, &mut s.paced_key, turn.is_streaming, tail);
    if let Some(started) = turn.streaming_started_at {
        if turn.is_streaming {
            let elapsed = i.now.duration_since(started);
            proof {
                Duration::lemma_lasting(elapsed);
            }
            let thinking_live = i.thinking_started && !i.thinking_ended;
            sample_tokens(
                &mut s.rate_samples,
                elapsed,
                thinking_live,
                turn.streaming_thinking_tokens,
                turn.turn_output_tokens,
            );
        }
    }
    let idle = i.now.duration_since(away.last_user_activity_at);
    let greeting = welcome_back(
        &mut away.idle_return_shown,
        turn.is_streaming,
        idle,
        turn.messages.len(),
        i.approx_tokens,
    );
    let waiting = IdleSignals {
        queued_prompts: turn.queued_prompts.len(),
        is_streaming: turn.is_streaming,
        turn_started: turn.turn_started_at.is_some(),
        question_pending: i.question_pending,
        pipeline_busy: i.pipeline_busy,
    };
    let drained = if idle_drain_due(waiting) {
        Some(drain_queued_prompts(turn, i.now, i.total_cost))
    } else {
        None
    };
    arm_compaction(&mut s.compaction, turn.is_streaming, i.compacting, i.near_limit);
    let housekeeping = keep_house(&mut s.clocks, i);
    let told = housekeeping.announce_mcp_change || housekeeping.announce_config_change
        || housekeeping.reload_keybindings;
    let needs_draw = i.wants_animation || i.other_change || held_back || greeting.is_some() || drained.is_some()
        || told;
    TickPlan { housekeeping, greeting, drained, needs_draw }
}

/// A tick at which nothing runs, nothing waits and nothing is new draws nothing.
pub proof fn law_a_quiet_tick_draws_nothing(c: TickClocks, turn: TurnState, away: AwayState, i: TickInputs)
    requires
        !i.wants_animation,
        !i.other_change,
        turn.queued_prompts@.len() == 0,
        away.idle_return_shown,
        i.mcp_refresh_counter <= c.last_mcp_refresh_seen,
        i.file_watcher_counter <= c.last_file_watcher_seen,
        i.keybindings_counter <= c.last_keybindings_seen,
    ensures
        !draws(c, turn, away, i),
{
}

/// What is done on one tick is not due on the next one, if that comes at once.
pub proof fn law_nothing_is_done_twice(c: TickClocks, i: TickInputs)
    requires
        i.spinner_len > 0,
    ensures
        ({
            let again = housekeeping_due(clocks_after(c, i), i);
            &&& !again.sync_detached
            &&& !again.refresh_snapshot
            &&& !again.fire_heartbeat
            &&& !again.announce_mcp_change
            &&& !again.announce_config_change
            &&& !again.reload_keybindings
            &&& !again.count_worktrees
            &&& !again.read_git_branch
        }),
{
}

// ── teammates' permissions ──────────────────────────────────────────────

/// The tool changes something.
pub open spec fn is_mutation(tool: Seq<char>) -> bool {
    tool == "Bash"@ || tool == "Write"@ || tool == "Edit"@ || tool == "ApplyPatch"@
}

/// What the leader answers on its own: yes, no, or nothing, where the user is to
/// decide.
pub open spec fn auto_answer(mode: PermissionMode, tool: Seq<char>) -> Option<bool> {
    match mode {
        PermissionMode::BypassPermissions => Some(true),
        PermissionMode::Plan => Some(false),
        PermissionMode::AcceptEdits => if tool == "Bash"@ {
            None
        } else {
            Some(true)
        },
        PermissionMode::Default | PermissionMode::Auto => if is_mutation(tool) {
            None
        } else {
            Some(true)
        },
    }
}

/// What the leader answers to a teammate's request on its own.
pub fn auto_permission(mode: PermissionMode, tool_name: &str) -> (r: Option<bool>)
    ensures
        r == auto_answer(mode, tool_name@),
{
    match mode {
        PermissionMode::BypassPermissions => Some(true),
        PermissionMode::Plan => Some(false),
        PermissionMode::AcceptEdits => if same_text(tool_name, "Bash") {
            None
        } else {
            Some(true)
        },
        PermissionMode::Default | PermissionMode::Auto => if same_text(tool_name, "Bash") || same_text(
            tool_name,
            "Write",
        ) || same_text(tool_name, "Edit") || same_text(tool_name, "ApplyPatch") {
            None
        } else {
            Some(true)
        },
    }
}

/// The name of a mode.
pub open spec fn mode_name(mode: PermissionMode) -> Seq<char> {
    match mode {
        PermissionMode::Default => "Default"@,
        PermissionMode::Plan => "Plan"@,
        PermissionMode::AcceptEdits => "AcceptEdits"@,
        PermissionMode::BypassPermissions => "BypassPermissions"@,
        PermissionMode::Auto => "Auto"@,
    }
}

fn mode_label(mode: PermissionMode) -> (r: &'static str)
    ensures
        r@ == mode_name(mode),
{
    match mode {
        PermissionMode::Default => "Default",
        PermissionMode::Plan => "Plan",
        PermissionMode::AcceptEdits => "AcceptEdits",
        PermissionMode::BypassPermissions => "BypassPermissions",
        PermissionMode::Auto => "Auto",
    }
}

/// What a teammate is told with the answer: a reason where it was refused.
pub fn permission_feedback(approved: bool, mode: PermissionMode) -> (r: Option<String>)
    ensures
        opt_text(r) == (if approved {
            None
        } else {
            Some("Auto-denied by leader permission_mode="@ + mode_name(mode))
        }),
{
    if approved {
        None
    } else {
        Some(cat2("Auto-denied by leader permission_mode=", mode_label(mode)))
    }
}

/// The notice by which the user is asked to decide.
pub open spec fn ask_words(worker: Seq<char>, tool: Seq<char>, id: Seq<char>) -> Seq<char> {
    "🔒 "@ + worker + " wants to "@ + tool + " — /swarm-approve "@ + id + " or /swarm-deny "@ + id
}

/// The notice by which the user is asked to decide.
pub fn permission_notice(worker: &str, tool: &str, id: &str) -> (r: String)
    ensures
        r@ == ask_words(worker@, tool@, id@),
{
    let mut out = cat6("🔒 ", worker, " wants to ", tool, " — /swarm-approve ", id);
    out.push_str(" or /swarm-deny ");
    out.push_str(id);
    out
}

/// Nothing that changes files or runs commands is approved without the user,
/// unless the user turned the questions off or accepts edits.
pub proof fn law_mutations_need_the_user(mode: PermissionMode, tool: Seq<char>)
    requires
        is_mutation(tool),
        auto_answer(mode, tool) == Some(true),
    ensures
        mode == PermissionMode::BypassPermissions || (mode == PermissionMode::AcceptEdits && tool != "Bash"@),
{
}

/// In plan mode every request is refused.
pub proof fn law_plan_mode_refuses(tool: Seq<char>)
    ensures
        auto_answer(PermissionMode::Plan, tool) == Some(false),
{
}

/// Every chore comes round when its time has passed, and no sooner: a heartbeat every
/// thirty seconds, the quota and the worktrees every ten, the branch every five, and
/// the detached work every second.
pub proof fn law_chores_come_round(c: TickClocks, i: TickInputs, t: Instant)
    ensures
        c.last_heartbeat_at == Some(t) ==> (housekeeping_due(c, i).fire_heartbeat <==> i.now.since(t)
            >= 30_000_000_000),
        c.last_detached_sync_at == Some(t) ==> (housekeeping_due(c, i).sync_detached <==> i.now.since(t)
            >= 1_000_000_000),
        c.snapshot_refreshed_at == Some(t) && i.has_oauth ==> (housekeeping_due(c, i).refresh_snapshot
            <==> i.now.since(t) >= 10_000_000_000),
        c.worktree_count_last_refresh == Some(t) && i.in_git_repo ==> (housekeeping_due(c, i).count_worktrees
            <==> i.now.since(t) >= 10_000_000_000),
        c.git_branch_last_refresh == Some(t) && i.in_git_repo ==> (housekeeping_due(c, i).read_git_branch
            <==> i.now.since(t) >= 5_000_000_000),
        !i.has_oauth ==> !housekeeping_due(c, i).refresh_snapshot,
        !i.in_git_repo ==> !housekeeping_due(c, i).count_worktrees && !housekeeping_due(c, i).read_git_branch,
        !i.team_active || !i.team_named ==> !housekeeping_due(c, i).poll_team,
{
}

/// What was never done is done at the first tick.
pub proof fn law_first_tick_does_everything(c: TickClocks, i: TickInputs)
    requires
        c.last_heartbeat_at is None,
        c.last_detached_sync_at is None,
        c.snapshot_refreshed_at is None,
        c.worktree_count_last_refresh is None,
        c.git_branch_last_refresh is None,
        i.has_oauth,
        i.in_git_repo,
    ensures
        ({
            let h = housekeeping_due(c, i);
            h.fire_heartbeat && h.sync_detached && h.refresh_snapshot && h.count_worktrees && h.read_git_branch
        }),
        clocks_after(c, i).last_heartbeat_at == Some(i.now),
        clocks_after(c, i).last_detached_sync_at == Some(i.now),
        clocks_after(c, i).snapshot_refreshed_at == Some(i.now),
        clocks_after(c, i).worktree_count_last_refresh == Some(i.now),
        clocks_after(c, i).git_branch_last_refresh == Some(i.now),
{
}

/// A change is told of when its counter has grown, and then no more; a tick that tells
/// of something is drawn.
pub proof fn law_changes_are_announced(c: TickClocks, i: TickInputs, turn: TurnState, away: AwayState)
    ensures
        housekeeping_due(c, i).announce_mcp_change <==> i.mcp_refresh_counter > c.last_mcp_refresh_seen,
        housekeeping_due(c, i).reload_keybindings <==> i.keybindings_counter > c.last_keybindings_seen,
        i.file_watcher_counter > c.last_file_watcher_seen && !i.config_reminder_queued ==> housekeeping_due(
            c,
            i,
        ).announce_config_change,
        i.config_reminder_queued ==> !housekeeping_due(c, i).announce_config_change,
        clocks_after(c, i).last_mcp_refresh_seen >= i.mcp_refresh_counter,
        clocks_after(c, i).last_keybindings_seen >= i.keybindings_counter,
        clocks_after(c, i).last_file_watcher_seen >= i.file_watcher_counter,
        i.mcp_refresh_counter > c.last_mcp_refresh_seen ==> draws(c, turn, away, i),
        i.keybindings_counter > c.last_keybindings_seen ==> draws(c, turn, away, i),
{
}

/// The frames of the spinner come one after the other, and then from the first again.
pub proof fn law_frames_go_round(frame: usize, len: usize)
    requires
        frame < len,
    ensures
        next_frame(frame, len) < len,
        frame + 1 < len ==> next_frame(frame, len) == frame + 1,
        frame + 1 == len ==> next_frame(frame, len) == 0,
{
    if frame + 1 < len {
        assert((frame + 1) % (len as int) == frame + 1) by (nonlinear_arith)
            requires
                0 <= frame + 1 < len,
        ;
    } else {
        assert((frame + 1) % (len as int) == 0) by (nonlinear_arith)
            requires
                frame + 1 == len,
        ;
    }
}

/// What waits is sent as soon as nothing is going on, and not before.
pub proof fn law_waiting_prompts_are_sent_when_idle(turn: TurnState, i: TickInputs)
    requires
        turn.queued_prompts@.len() <= usize::MAX,
    ensures
        drain_due(idle_of(turn, i)) <==> turn.queued_prompts@.len() > 0 && !turn.is_streaming && turn.turn_started_at is None
            && !i.question_pending && !i.pipeline_busy,
{
}

/// A compaction is prepared near the limit, once, and never while an answer arrives or
/// another compaction runs.
pub proof fn law_compaction_is_prepared_once(a: CompactArm, streaming: bool, compacting: bool, near_limit: bool)
    ensures
        near_limit && !streaming && !compacting && !a.speculative_compact_fired ==> armed_after(
            a,
            streaming,
            compacting,
            near_limit,
        ).force_compact_pending,
        streaming || compacting || !near_limit || a.speculative_compact_fired ==> armed_after(
            a,
            streaming,
            compacting,
            near_limit,
        ) == a,
        armed_after(armed_after(a, streaming, compacting, near_limit), streaming, compacting, near_limit)
            == armed_after(a, streaming, compacting, near_limit),
{
}

/// A user who comes back after an hour and a quarter is greeted once, with the size of
/// the context, and never while an answer arrives or before anything was said.
pub proof fn law_returning_users_are_greeted_once(away: AwayState, turn: TurnState, i: TickInputs)
    ensures
        i.now.since(away.last_user_activity_at) >= 4_500_000_000_000 && !away.idle_return_shown && !turn.is_streaming
            && turn.messages@.len() > 0 ==> greets(away, turn, i),
        i.now.since(away.last_user_activity_at) < 4_500_000_000_000 ==> !greets(away, turn, i),
        turn.is_streaming || away.idle_return_shown || turn.messages@.len() == 0 ==> !greets(away, turn, i),
        crate::slicing::has_text(welcome_words(i.approx_tokens as nat), decimal(i.approx_tokens as nat)),
{
    let n = decimal(i.approx_tokens as nat);
    crate::showing::lemma_has_in_sum("Welcome back! Context: ~"@, n, n);
    crate::showing::lemma_has_in_sum(
        "Welcome back! Context: ~"@ + n,
        " tokens. Consider `/clear` to save on re-caching or `/compact` to trim."@,
        n,
    );
}

/// The latest count is always the last sample, and a count that starts over starts the
/// window over.
pub proof fn law_latest_count_is_sampled(samples: Seq<(Duration, u64)>, elapsed: Duration, count: u64)
    ensures
        sampled(samples, elapsed, count).len() > 0,
        sampled(samples, elapsed, count).last() == (elapsed, count),
        samples.len() > 0 && count < samples.last().1 ==> sampled(samples, elapsed, count) == seq![(elapsed, count)],
{
    let kept = if samples.len() > 0 && count < samples.last().1 {
        Seq::empty()
    } else {
        samples
    };
    let more = kept.push((elapsed, count));
    crate::spinner::law_trim_keeps_newest(more);
    if samples.len() > 0 && count < samples.last().1 {
        assert(more =~= seq![(elapsed, count)]);
    }
}

/// The tokens that are counted are those of what arrives: of the thinking while that
/// arrives, and of the answer otherwise.
pub proof fn law_what_arrives_is_counted(turn: TurnState, i: TickInputs)
    ensures
        i.thinking_started && !i.thinking_ended ==> live_count(turn, i) == turn.streaming_thinking_tokens,
        !i.thinking_started || i.thinking_ended ==> live_count(turn, i) == turn.turn_output_tokens,
        !turn.is_streaming ==> samples_after(Seq::empty(), turn, i).len() == 0,
{
}

/// The clock of a phase starts when the phase changes and runs on while it lasts; the
/// thinking of a turn is remembered until the turn ends.
pub proof fn law_phases_keep_their_clock(s: SpinnerState, e: EngineSignals, now: Instant)
    ensures
        spinner_after(s, e, now).phase == s.phase ==> spinner_after(s, e, now).entered_at == s.entered_at,
        spinner_after(s, e, now).phase != s.phase ==> spinner_after(s, e, now).entered_at == now,
        !e.turn_active() ==> spinner_after(s, e, now).thinking_first_seen_at is None,
        e.turn_active() && s.thinking_first_seen_at is Some ==> spinner_after(s, e, now).thinking_first_seen_at
            == s.thinking_first_seen_at,
        e.turn_active() && s.thinking_first_seen_at is None && e.thinking_started && !e.thinking_ended ==> spinner_after(
            s,
            e,
            now,
        ).thinking_first_seen_at == Some(now),
{
}

/// Without limits everything is allowed; where edits are accepted, only commands still
/// ask; reading never asks, but for a plan, which refuses all.
pub proof fn law_permissions_go_by_the_mode(tool: Seq<char>)
    ensures
        auto_answer(PermissionMode::BypassPermissions, tool) == Some(true),
        auto_answer(PermissionMode::Plan, tool) == Some(false),
        tool != "Bash"@ ==> auto_answer(PermissionMode::AcceptEdits, tool) == Some(true),
        auto_answer(PermissionMode::AcceptEdits, "Bash"@) is None,
        auto_answer(PermissionMode::Default, "Bash"@) is None,
        auto_answer(PermissionMode::Default, "Write"@) is None,
        auto_answer(PermissionMode::Default, "Edit"@) is None,
        auto_answer(PermissionMode::Default, "ApplyPatch"@) is None,
        auto_answer(PermissionMode::Auto, tool) == auto_answer(PermissionMode::Default, tool),
        tool != "Bash"@ && tool != "Write"@ && tool != "Edit"@ && tool != "ApplyPatch"@ ==> auto_answer(
            PermissionMode::Default,
            tool,
        ) == Some(true),
{
}

/// A worker's wish names the worker, the tool, and the id in both answers.
pub proof fn law_wishes_name_worker_tool_and_id(worker: Seq<char>, tool: Seq<char>, id: Seq<char>)
    ensures
        crate::slicing::has_text(ask_words(worker, tool, id), worker + " wants to "@ + tool),
        crate::slicing::has_text(ask_words(worker, tool, id), "/swarm-approve "@ + id),
        crate::slicing::has_suffix(ask_words(worker, tool, id), "/swarm-deny "@ + id),
{
    reveal_strlit(" — /swarm-approve ");
    reveal_strlit("/swarm-approve ");
    reveal_strlit(" or /swarm-deny ");
    reveal_strlit("/swarm-deny ");
    let all = ask_words(worker, tool, id);
    let first = worker + " wants to "@ + tool;
    let at: int = "🔒 "@.len() as int;
    assert(all.subrange(at, at + first.len()) =~= first);
    assert(crate::slicing::occurs_at(all, first, at));
    let second = "/swarm-approve "@ + id;
    let next = at + first.len() + 3;
    assert(all.subrange(next, next + second.len()) =~= second);
    assert(crate::slicing::occurs_at(all, second, next));
    let third = "/swarm-deny "@ + id;
    assert(all.subrange(all.len() - third.len(), all.len() as int) =~= third);
}

/// The names of the modes differ, and a refusal names the mode.
pub proof fn law_refusals_name_the_mode(a: PermissionMode, b: PermissionMode, r: Option<String>)
    requires
        call_ensures(permission_feedback, (false, a), r),
    ensures
        r is Some,
        crate::slicing::has_text(r->0@, mode_name(a)),
        mode_name(a) == mode_name(b) ==> a == b,
{
    reveal_strlit("Default");
    reveal_strlit("Plan");
    reveal_strlit("AcceptEdits");
    reveal_strlit("BypassPermissions");
    reveal_strlit("Auto");
    crate::showing::lemma_has_in_sum("Auto-denied by leader permission_mode="@, mode_name(a), mode_name(a));
    assert("Default"@.len() == 7 && "Plan"@.len() == 4 && "AcceptEdits"@.len() == 11 && "BypassPermissions"@.len()
        == 17 && "Auto"@.len() == 4);
    assert("Plan"@[0] != "Auto"@[0]);
}

/// Only what is granted goes without a word.
pub proof fn law_grants_go_without_a_word(mode: PermissionMode, r: Option<String>)
    requires
        call_ensures(permission_feedback, (true, mode), r),
    ensures
        r is None,
{
}

/// Text is paced only while it streams, and by the message that it goes to: the pace
/// starts anew with another message or part.
pub proof fn law_each_part_has_its_own_pace(streaming: bool, a: StreamTail, b: StreamTail)
    ensures
        paced_key_after(false, a) is None,
        a.index is Some ==> paced_key_after(true, a) is Some,
        a.index is Some && a.index != b.index ==> paced_key_after(true, a) != paced_key_after(true, b),
        a.index is Some && a.part_count != b.part_count ==> paced_key_after(true, a) != paced_key_after(true, b),
{
}

} // verus!
