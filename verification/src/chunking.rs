//! Adaptive stream pacing: smooth or catching up.
//!
//! A queue of lines waits to be shown. While it is short and young, one line is
//! shown per tick. Once it grows deep or old the policy catches up and drains
//! all of it, and it stays in that mode until the pressure has been low for a
//! while. Right after leaving it does not enter again, unless the backlog is
//! severe.
use vstd::prelude::*;

use crate::time::{Duration, Instant};

verus! {

/// Queue depth at which catching up begins, in lines.
pub const ENTER_DEPTH: usize = 8;

/// Age of the oldest line at which catching up begins, in milliseconds.
pub const ENTER_AGE_MS: u64 = 120;

/// Queue depth at or below which catching up may end, in lines.
pub const EXIT_DEPTH: usize = 2;

/// Age of the oldest line at or below which catching up may end, in
/// milliseconds.
pub const EXIT_AGE_MS: u64 = 40;

/// How long the pressure must stay low before catching up ends, in
/// milliseconds.
pub const EXIT_HOLD_MS: u64 = 250;

/// How long catching up does not begin again after it ended, in milliseconds.
pub const REENTRY_HOLD_MS: u64 = 250;

/// Queue depth that overrides the re-entry hold, in lines.
pub const SEVERE_DEPTH: usize = 64;

/// Age of the oldest line that overrides the re-entry hold, in milliseconds.
pub const SEVERE_AGE_MS: u64 = 300;

/// How lines are drained.
#[derive(Debug, Clone, Copy, PartialEq, Eq, Structural)]
pub enum ChunkingMode {
    /// One line per tick.
    Smooth,
    /// The whole backlog per tick.
    CatchUp,
}

/// The queue as the policy sees it.
#[derive(Debug, Clone, Copy)]
pub struct QueueSnapshot {
    pub queued_lines: usize,
    /// Age of the oldest queued line, if it is known.
    pub oldest_age: Option<Duration>,
}

/// How many lines to show in this tick.
#[derive(Debug, Clone, Copy, PartialEq, Eq, Structural)]
pub enum DrainPlan {
    Single,
    Batch(usize),
}

/// Mode and clocks of the policy.
#[derive(Debug, Clone, Copy)]
pub struct AdaptiveChunkingPolicy {
    pub mode: ChunkingMode,
    /// Since when the pressure has been low enough to stop catching up.
    pub calm_since: Option<Instant>,
    /// When catching up last ended.
    pub last_exit_at: Option<Instant>,
}

impl QueueSnapshot {
    /// The oldest line has waited for at least `ms` milliseconds.
    pub open spec fn aged(self, ms: u64) -> bool {
        match self.oldest_age {
            Some(age) => age@ >= ms * 1_000_000,
            None => false,
        }
    }

    /// Deep or old enough to begin catching up.
    pub open spec fn enters(self) -> bool {
        self.queued_lines >= ENTER_DEPTH || self.aged(ENTER_AGE_MS)
    }

    /// Short and young enough to stop catching up.
    pub open spec fn exits(self) -> bool {
        self.queued_lines <= EXIT_DEPTH && match self.oldest_age {
            Some(age) => age@ <= EXIT_AGE_MS * 1_000_000,
            None => false,
        }
    }

    /// So deep or old that the re-entry hold does not count.
    pub open spec fn is_severe(self) -> bool {
        self.queued_lines >= SEVERE_DEPTH || self.aged(SEVERE_AGE_MS)
    }

    fn has_aged(&self, ms: u64) -> (r: bool)
        ensures
            r == self.aged(ms),
    {
        match self.oldest_age {
            Some(age) => !age.is_shorter_than(&Duration::from_millis(ms)),
            None => false,
        }
    }

    fn may_exit(&self) -> (r: bool)
        ensures
            r == self.exits(),
    {
        let young = match self.oldest_age {
            Some(age) => !Duration::from_millis(EXIT_AGE_MS).is_shorter_than(&age),
            None => false,
        };
        self.queued_lines <= EXIT_DEPTH && young
    }
}

/// At least `ms` milliseconds lie between `since` and `now`.
pub open spec fn lasted(since: Instant, now: Instant, ms: u64) -> bool {
    now.since(since) >= ms * 1_000_000
}

/// The policy after it has seen `queue` at `now`.
pub open spec fn policy_after(
    p: AdaptiveChunkingPolicy,
    queue: QueueSnapshot,
    now: Instant,
) -> AdaptiveChunkingPolicy {
    if queue.queued_lines == 0 {
        AdaptiveChunkingPolicy {
            mode: ChunkingMode::Smooth,
            calm_since: None,
            last_exit_at: if p.mode == ChunkingMode::CatchUp {
                Some(now)
            } else {
                p.last_exit_at
            },
        }
    } else if p.mode == ChunkingMode::Smooth {
        let held = match p.last_exit_at {
            Some(exit) => !lasted(exit, now, REENTRY_HOLD_MS),
            None => false,
        };
        if queue.enters() && (!held || queue.is_severe()) {
            AdaptiveChunkingPolicy {
                mode: ChunkingMode::CatchUp,
                calm_since: None,
                last_exit_at: None,
            }
        } else {
            p
        }
    } else if !queue.exits() {
        AdaptiveChunkingPolicy { calm_since: None, ..p }
    } else {
        match p.calm_since {
            Some(since) => if lasted(since, now, EXIT_HOLD_MS) {
                AdaptiveChunkingPolicy {
                    mode: ChunkingMode::Smooth,
                    calm_since: None,
                    last_exit_at: Some(now),
                }
            } else {
                p
            },
            None => AdaptiveChunkingPolicy { calm_since: Some(now), ..p },
        }
    }
}

/// How many lines a mode shows of a queue.
pub open spec fn plan_for(mode: ChunkingMode, queued: usize) -> DrainPlan {
    if mode == ChunkingMode::CatchUp && queued > 0 {
        DrainPlan::Batch(queued)
    } else {
        DrainPlan::Single
    }
}

impl AdaptiveChunkingPolicy {
    pub fn new() -> (r: Self)
        ensures
            r.mode == ChunkingMode::Smooth,
            r.calm_since is None,
            r.last_exit_at is None,
    {
        AdaptiveChunkingPolicy { mode: ChunkingMode::Smooth, calm_since: None, last_exit_at: None }
    }

    /// Forget everything, for a new stream.
    pub fn reset(&mut self)
        ensures
            final(self).mode == ChunkingMode::Smooth,
            final(self).calm_since is None,
            final(self).last_exit_at is None,
    {
        *self = Self::new();
    }

    /// Take note of the queue and decide how many lines to show now.
    pub fn decide(&mut self, queue: QueueSnapshot, now: Instant) -> (r: DrainPlan)
        ensures
            *final(self) == policy_after(*old(self), queue, now),
            r == plan_for(final(self).mode, queue.queued_lines),
    {
        if queue.queued_lines == 0 {
            if self.mode == ChunkingMode::CatchUp {
                self.last_exit_at = Some(now);
            }
            self.mode = ChunkingMode::Smooth;
            self.calm_since = None;
            return DrainPlan::Single;
        }
        match self.mode {
            ChunkingMode::Smooth => {
                let enters = queue.queued_lines >= ENTER_DEPTH || queue.has_aged(ENTER_AGE_MS);
                let severe = queue.queued_lines >= SEVERE_DEPTH || queue.has_aged(SEVERE_AGE_MS);
                let held = match self.last_exit_at {
                    Some(exit) => now.duration_since(exit).is_shorter_than(
                        &Duration::from_millis(REENTRY_HOLD_MS),
                    ),
                    None => false,
                };
                if enters && (!held || severe) {
                    self.mode = ChunkingMode::CatchUp;
                    self.calm_since = None;
                    self.last_exit_at = None;
                }
            },
            ChunkingMode::CatchUp => {
                if !queue.may_exit() {
                    self.calm_since = None;
                } else {
                    match self.calm_since {
                        Some(since) => {
                            if !now.duration_since(since).is_shorter_than(
                                &Duration::from_millis(EXIT_HOLD_MS),
                            ) {
                                self.mode = ChunkingMode::Smooth;
                                self.calm_since = None;
                                self.last_exit_at = Some(now);
                            }
                        },
                        None => {
                            self.calm_since = Some(now);
                        },
                    }
                }
            },
        }
        match self.mode {
            ChunkingMode::Smooth => DrainPlan::Single,
            ChunkingMode::CatchUp => DrainPlan::Batch(queue.queued_lines),
        }
    }
}

impl Default for AdaptiveChunkingPolicy {
    fn default() -> (r: Self)
        ensures
            r.mode == ChunkingMode::Smooth,
            r.calm_since is None,
            r.last_exit_at is None,
    {
        Self::new()
    }
}

/// A short and young queue never makes a smooth stream catch up.
pub proof fn law_smooth_stays_smooth_without_pressure(
    p: AdaptiveChunkingPolicy,
    queue: QueueSnapshot,
    now: Instant,
)
    requires
        p.mode == ChunkingMode::Smooth,
        !queue.enters(),
    ensures
        policy_after(p, queue, now).mode == ChunkingMode::Smooth,
{
}

/// A severe backlog is always drained at once.
pub proof fn law_severe_backlog_is_drained(
    p: AdaptiveChunkingPolicy,
    queue: QueueSnapshot,
    now: Instant,
)
    requires
        queue.queued_lines > 0,
        queue.is_severe(),
    ensures
        plan_for(policy_after(p, queue, now).mode, queue.queued_lines) == DrainPlan::Batch(
            queue.queued_lines,
        ),
{
}

/// A backlog of eight lines, or of an eighth of a second, is caught up with at once
/// unless catching up has just ended; a smaller one is shown line by line.
pub proof fn law_backlogs_are_caught_up_with(p: AdaptiveChunkingPolicy, queue: QueueSnapshot, now: Instant)
    requires
        p.mode == ChunkingMode::Smooth,
        queue.queued_lines > 0,
    ensures
        queue.queued_lines >= 8 && p.last_exit_at is None ==> policy_after(p, queue, now).mode == ChunkingMode::CatchUp,
        queue.oldest_age matches Some(age) ==> age@ >= 120_000_000 && p.last_exit_at is None ==> policy_after(
            p,
            queue,
            now,
        ).mode == ChunkingMode::CatchUp,
        queue.queued_lines < 8 && (queue.oldest_age matches Some(age) ==> age@ < 120_000_000) ==> policy_after(
            p,
            queue,
            now,
        ) == p,
        p.last_exit_at matches Some(exit) ==> now.since(exit) < 250_000_000 && queue.queued_lines < 64 && (
        queue.oldest_age matches Some(age) ==> age@ < 300_000_000) ==> policy_after(p, queue, now) == p,
{
}

/// Catching up goes on until the backlog has been small for a quarter of a second, or is
/// gone.
pub proof fn law_catching_up_ends_when_it_is_calm(p: AdaptiveChunkingPolicy, queue: QueueSnapshot, now: Instant)
    requires
        p.mode == ChunkingMode::CatchUp,
    ensures
        queue.queued_lines == 0 ==> policy_after(p, queue, now).mode == ChunkingMode::Smooth && policy_after(
            p,
            queue,
            now,
        ).last_exit_at == Some(now),
        queue.queued_lines > 2 ==> policy_after(p, queue, now).mode == ChunkingMode::CatchUp && policy_after(
            p,
            queue,
            now,
        ).calm_since is None,
        0 < queue.queued_lines && p.calm_since is None ==> policy_after(p, queue, now).mode == ChunkingMode::CatchUp,
        0 < queue.queued_lines <= 2 && queue.exits() && (p.calm_since matches Some(since) && now.since(since)
            >= 250_000_000) ==> policy_after(p, queue, now).mode == ChunkingMode::Smooth,
{
}

/// Catching up shows the whole backlog in one go, the other way one line.
pub proof fn law_catching_up_shows_the_backlog(queued: usize)
    requires
        queued > 0,
    ensures
        plan_for(ChunkingMode::CatchUp, queued) == DrainPlan::Batch(queued),
        plan_for(ChunkingMode::Smooth, queued) == DrainPlan::Single,
{
}

} // verus!
