//! View-layer reveal cap for live streaming text.
//!
//! The received text is the single source of truth. The pacer only says how
//! many display lines of it are shown. Normally that is all of them, on every
//! tick. A stream can also be smoothed: then the lines not yet shown are a
//! queue, and the chunking policy decides how many to reveal.
use vstd::prelude::*;
use vstd::string::StrSliceExecFns;

use crate::chunking::{plan_for, policy_after, AdaptiveChunkingPolicy, DrainPlan, QueueSnapshot};
use crate::text::chars_of;
use crate::time::{Duration, Instant};

verus! {

/// Reveal state of one live stream.
#[derive(Debug, Clone, Copy)]
pub struct StreamPacer {
    pub policy: AdaptiveChunkingPolicy,
    /// How many display lines are shown.
    pub revealed: usize,
    /// Since when lines have been waiting.
    pub backlog_since: Option<Instant>,
}

/// The pacer after a tick at `now` with `total` lines received.
pub open spec fn pacer_after(p: StreamPacer, total: usize, now: Instant) -> StreamPacer {
    if p.revealed >= total {
        StreamPacer {
            policy: policy_after(
                p.policy,
                QueueSnapshot { queued_lines: 0, oldest_age: None },
                now,
            ),
            revealed: total,
            backlog_since: None,
        }
    } else {
        let queued = (total - p.revealed) as usize;
        let policy = policy_after(
            p.policy,
            QueueSnapshot {
                queued_lines: queued,
                oldest_age: Some(Duration::lasting(backlog_age(p, now))),
            },
            now,
        );
        let shown = match plan_for(policy.mode, queued) {
            DrainPlan::Single => (p.revealed + 1) as usize,
            DrainPlan::Batch(n) => total,
        };
        StreamPacer {
            policy,
            revealed: shown,
            backlog_since: if shown >= total {
                None
            } else {
                Some(now)
            },
        }
    }
}

/// How long the lines not yet shown have waited.
pub open spec fn backlog_age(p: StreamPacer, now: Instant) -> nat {
    match p.backlog_since {
        Some(since) => now.since(since),
        None => now.since(now),
    }
}

impl StreamPacer {
    pub fn new() -> (r: Self)
        ensures
            r.revealed == 0,
            r.backlog_since is None,
            r.policy.mode == crate::chunking::ChunkingMode::Smooth,
            r.policy.calm_since is None,
            r.policy.last_exit_at is None,
    {
        StreamPacer { policy: AdaptiveChunkingPolicy::new(), revealed: 0, backlog_since: None }
    }

    /// Start fresh for a new streaming message.
    pub fn reset(&mut self)
        ensures
            final(self).revealed == 0,
            final(self).backlog_since is None,
            final(self).policy.mode == crate::chunking::ChunkingMode::Smooth,
            final(self).policy.calm_since is None,
            final(self).policy.last_exit_at is None,
    {
        *self = Self::new();
    }

    /// Lines currently revealed.
    pub fn revealed(&self) -> (r: usize)
        ensures
            r == self.revealed,
    {
        self.revealed
    }

    /// Advance the reveal toward `total_lines` and return how many lines are
    /// shown now. Call once per animation tick of a stream that is smoothed.
    pub fn advance(&mut self, total_lines: usize, now: Instant) -> (r: usize)
        ensures
            *final(self) == pacer_after(*old(self), total_lines, now),
            r == final(self).revealed,
            r <= total_lines,
            old(self).revealed < total_lines ==> r > old(self).revealed,
    {
        let since = match self.backlog_since {
            Some(since) => since,
            None => now,
        };
        let age = now.duration_since(since);
        proof {
            Duration::lemma_lasting(age);
        }
        if self.revealed >= total_lines {
            self.revealed = total_lines;
            self.backlog_since = None;
            let _ = self.policy.decide(QueueSnapshot { queued_lines: 0, oldest_age: None }, now);
            return self.revealed;
        }
        let queued: usize = total_lines - self.revealed;
        let plan = self.policy.decide(
            QueueSnapshot { queued_lines: queued, oldest_age: Some(age) },
            now,
        );
        let to_reveal: usize = match plan {
            DrainPlan::Single => 1,
            DrainPlan::Batch(n) => n,
        };
        self.revealed = self.revealed + to_reveal;
        self.backlog_since = if self.revealed >= total_lines {
            None
        } else {
            Some(now)
        };
        self.revealed
    }

    /// The pacer with all lines revealed.
    pub open spec fn all_revealed(self, total_lines: usize) -> Self {
        StreamPacer { revealed: total_lines, backlog_since: None, policy: self.policy }
    }

    /// Whether lines are still to be revealed.
    pub open spec fn lags(self, total_lines: usize) -> bool {
        self.revealed < total_lines
    }

    /// Reveal everything at once: nothing is held back, neither while a stream
    /// goes on nor past its end.
    pub fn reveal_all(&mut self, total_lines: usize)
        ensures
            *final(self) == old(self).all_revealed(total_lines),
    {
        self.revealed = total_lines;
        self.backlog_since = None;
    }

    /// Whether there is still text that is not shown.
    pub fn is_catching_up(&self, total_lines: usize) -> (r: bool)
        ensures
            r == self.lags(total_lines),
    {
        self.revealed < total_lines
    }
}

impl Default for StreamPacer {
    fn default() -> (r: Self)
        ensures
            r.revealed == 0,
            r.backlog_since is None,
            r.policy.mode == crate::chunking::ChunkingMode::Smooth,
            r.policy.calm_since is None,
            r.policy.last_exit_at is None,
    {
        Self::new()
    }
}

/// No tick shows more than was received, and every tick with lines waiting
/// shows at least one more.
pub proof fn law_reveal_progresses(p: StreamPacer, total: usize, now: Instant)
    ensures
        pacer_after(p, total, now).revealed <= total,
        p.revealed < total ==> pacer_after(p, total, now).revealed > p.revealed,
{
}

/// Eight waiting lines are shown in one tick, as long as the policy has not
/// just stopped catching up.
pub proof fn law_deep_backlog_is_drained(p: StreamPacer, total: usize, now: Instant)
    requires
        p.revealed + crate::chunking::ENTER_DEPTH <= total,
        p.policy.last_exit_at is None,
    ensures
        pacer_after(p, total, now).revealed == total,
{
}

// ── display lines ───────────────────────────────────────────────────────

/// Number of line feeds in `s`.
pub open spec fn line_feeds(s: Seq<char>) -> nat
    decreases s.len(),
{
    if s.len() == 0 {
        0
    } else {
        line_feeds(s.drop_last()) + (if s.last() == '\n' {
            1nat
        } else {
            0
        })
    }
}

/// Number of display lines of `s`: the last one counts, also where it is not
/// closed. An empty text has none.
pub open spec fn display_lines(s: Seq<char>) -> nat {
    if s.len() == 0 {
        0
    } else {
        line_feeds(s) + 1
    }
}

/// Number of display lines of `s`, as far as it can be counted.
pub open spec fn line_count(s: Seq<char>) -> usize {
    if display_lines(s) <= usize::MAX {
        display_lines(s) as usize
    } else {
        usize::MAX
    }
}

/// `r` is what the first `n` display lines of `s` show.
pub open spec fn is_first_lines(r: Seq<char>, s: Seq<char>, n: nat) -> bool {
    if n == 0 {
        r.len() == 0
    } else if line_feeds(s) < n {
        r == s
    } else {
        &&& r.len() < s.len()
        &&& r == s.take(r.len() as int)
        &&& s[r.len() as int] == '\n'
        &&& line_feeds(r) == n - 1
    }
}

/// Number of display lines in `s`.
pub fn display_line_count(s: &str) -> (r: usize)
    ensures
        r == line_count(s@),
{
    let cs = chars_of(s);
    if cs.len() == 0 {
        return 0;
    }
    let mut feeds: usize = 0;
    let mut i: usize = 0;
    assert(cs@.take(0) =~= Seq::<char>::empty());
    while i < cs.len()
        invariant
            i <= cs@.len(),
            feeds <= i,
            feeds == line_feeds(cs@.take(i as int)),
        decreases cs@.len() - i,
    {
        assert(cs@.take(i + 1).drop_last() =~= cs@.take(i as int));
        if cs[i] == '\n' {
            feeds += 1;
        }
        i += 1;
    }
    assert(cs@.take(i as int) =~= cs@);
    feeds.saturating_add(1)
}

proof fn lemma_line_feeds_of_prefix(s: Seq<char>, i: int)
    requires
        0 <= i <= s.len(),
    ensures
        line_feeds(s.take(i)) <= line_feeds(s),
    decreases s.len() - i,
{
    if i < s.len() {
        assert(s.take(i + 1).drop_last() =~= s.take(i));
        lemma_line_feeds_of_prefix(s, i + 1);
    } else {
        assert(s.take(i) =~= s);
    }
}

/// The first `n` display lines of `s`: everything before the `n`-th line feed,
/// or all of it where there are fewer.
pub fn take_first_lines<'a>(s: &'a str, n: usize) -> (r: &'a str)
    ensures
        is_first_lines(r@, s@, n as nat),
{
    let cs = chars_of(s);
    if n == 0 {
        return s.substring_char(0, 0);
    }
    let mut feeds: usize = 0;
    let mut i: usize = 0;
    assert(cs@.take(0) =~= Seq::<char>::empty());
    while i < cs.len()
        invariant
            cs@ == s@,
            i <= cs@.len(),
            feeds <= i,
            feeds < n,
            feeds == line_feeds(cs@.take(i as int)),
        decreases cs@.len() - i,
    {
        assert(cs@.take(i + 1).drop_last() =~= cs@.take(i as int));
        if cs[i] == '\n' {
            feeds += 1;
            if feeds == n {
                proof {
                    lemma_line_feeds_of_prefix(cs@, i + 1);
                    assert(cs@.subrange(0, i as int) =~= cs@.take(i as int));
                }
                return s.substring_char(0, i);
            }
        }
        i += 1;
    }
    assert(cs@.take(i as int) =~= cs@);
    s
}

/// What the first `n` display lines show: nothing of none, the whole text of all
/// or more, and of some of them everything before the line feed that closes the
/// last of them.
pub proof fn law_first_lines(r: Seq<char>, s: Seq<char>, n: nat)
    requires
        is_first_lines(r, s, n),
    ensures
        r.len() <= s.len(),
        r == s.take(r.len() as int),
        r == s <==> n >= display_lines(s),
        n == 0 ==> r.len() == 0,
        0 < n < display_lines(s) ==> {
            &&& r.len() < s.len()
            &&& s[r.len() as int] == '\n'
            &&& line_feeds(r) == n - 1
        },
{
    law_first_lines_are_a_prefix(r, s, n);
    if n >= display_lines(s) {
        law_all_lines_show_everything(r, s, n);
    }
}

/// Once every display line is revealed the whole text shows, the unfinished
/// last line included.
pub proof fn law_all_lines_show_everything(r: Seq<char>, s: Seq<char>, n: nat)
    requires
        n >= display_lines(s),
        is_first_lines(r, s, n),
    ensures
        r == s,
{
    if n == 0 {
        assert(r =~= s);
    }
}

/// What is revealed is a prefix with no more display lines than asked for.
pub proof fn law_first_lines_are_a_prefix(r: Seq<char>, s: Seq<char>, n: nat)
    requires
        is_first_lines(r, s, n),
    ensures
        r.len() <= s.len(),
        r == s.take(r.len() as int),
        display_lines(r) <= n,
{
    if n == 0 {
        assert(r =~= s.take(0));
    } else if line_feeds(s) < n {
        assert(s.take(s.len() as int) =~= s);
    }
}

/// Once everything is revealed the pacer lags no more, until more lines come.
pub proof fn law_revealing_all_ends_the_lag(p: StreamPacer, total: usize, more: usize)
    ensures
        !p.all_revealed(total).lags(total),
        p.all_revealed(total).lags(more) == (total < more),
        p.lags(total) ==> p.all_revealed(total) != p,
        p.all_revealed(total).policy == p.policy,
{
}

/// Lines that still wait are known to wait, and the clock of the backlog runs only then.
pub proof fn law_backlog_is_timed(p: StreamPacer, total: usize, now: Instant)
    ensures
        pacer_after(p, total, now).lags(total) ==> pacer_after(p, total, now).backlog_since == Some(now),
        !pacer_after(p, total, now).lags(total) ==> pacer_after(p, total, now).backlog_since is None,
{
}

} // verus!
