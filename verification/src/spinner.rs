//! Honest streaming-status model for the spinner row.
//!
//! Every string made here reflects something the stream told us: elapsed
//! time, real token counts, measured throughput or measured silence.
//!
//! ```text
//! ✦ Thinking · 1m04s · 1.2k thinking · 18 tok/s
//! ✦ Responding · 1m22s · 2.4k tokens · 47 tok/s
//! ```
use std::collections::VecDeque;
use vstd::prelude::*;

use crate::doubles::{double_of, double_of_u64, nearest, nearest_u128, quotient_double, quotient_of, seconds_double, seconds_of};
use crate::slicing::{group_texts, join, joined, opt_text, texts};
use crate::tenths::{one_decimal, push_one_decimal};
use crate::text::{cat2, cat3, cat4, decimal, decimal_text, digit, push_decimal, same_text, two_digit_text, two_digits};
use crate::time::{Duration, Instant};

verus! {

broadcast use group_texts;

// ── glyph cycle ─────────────────────────────────────────────────────────

/// Spinner glyph cycle: a small star set that advances one frame per tick
/// while streaming.
pub const FRAMES: [&'static str; 6] = ["·", "✢", "✦", "✶", "✻", "✽"];

/// Glyph for `tick`. A held tick freezes the glyph.
pub fn frame_for(tick: usize) -> (r: &'static str)
    ensures
        r@ == frame_glyph(tick as nat),
{
    FRAMES[tick % 6]
}

/// The glyph of the cycle at `tick`.
pub open spec fn frame_glyph(tick: nat) -> Seq<char> {
    FRAMES@[(tick % 6) as int]@
}

/// Whether the user wants less motion, given the setting.
pub fn reduced_motion(setting: &Option<String>) -> (r: bool)
    ensures
        r == (match opt_text(*setting) {
            Some(v) => v == "1"@ || v == "true"@ || v == "yes"@,
            None => false,
        }),
{
    match setting {
        Some(v) => same_text(v.as_str(), "1") || same_text(v.as_str(), "true") || same_text(v.as_str(), "yes"),
        None => false,
    }
}

// ── clocks and counts ───────────────────────────────────────────────────

/// `4s`, `47s`, `1m04s`, `61m01s`: seconds, with minutes in front once there
/// are any, and the seconds behind minutes always in two digits.
pub open spec fn elapsed_text(secs: nat) -> Seq<char> {
    if secs >= 60 {
        decimal(secs / 60) + "m"@ + two_digits(secs % 60) + "s"@
    } else {
        decimal(secs) + "s"@
    }
}

/// Format an elapsed duration compactly: `4s`, `47s`, `1m04s`, `61m01s`.
pub fn fmt_elapsed(elapsed: Duration) -> (r: String)
    ensures
        r@ == elapsed_text(elapsed.secs()),
{
    let secs = elapsed.as_secs();
    if secs >= 60 {
        cat4(decimal_text(secs / 60).as_str(), "m", two_digit_text(secs % 60).as_str(), "s")
    } else {
        cat2(decimal_text(secs).as_str(), "s")
    }
}

/// `234`, `1.4k`, `15k`, `2.0M`.
pub open spec fn tokens_text(n: nat) -> Seq<char> {
    if n >= 1_000_000 {
        one_decimal(n, 1_000_000) + "M"@
    } else if n >= 10_000 {
        decimal(n / 1000) + "k"@
    } else if n >= 1_000 {
        one_decimal(n, 1000) + "k"@
    } else {
        decimal(n)
    }
}

/// Format a token count compactly: `234`, `1.4k`, `15k`, `2.0M`. Below 1000
/// the exact count is kept; above that one decimal for k and M.
pub fn fmt_tokens(n: u64) -> (r: String)
    ensures
        r@ == tokens_text(n as nat),
{
    if n >= 1_000_000 {
        let mut out = String::new();
        push_one_decimal(&mut out, n, 1_000_000);
        out.push_str("M");
        assert(out@ =~= tokens_text(n as nat));
        out
    } else if n >= 10_000 {
        cat2(decimal_text(n / 1000).as_str(), "k")
    } else if n >= 1_000 {
        let mut out = String::new();
        push_one_decimal(&mut out, n, 1000);
        out.push_str("k");
        assert(out@ =~= tokens_text(n as nat));
        out
    } else {
        decimal_text(n)
    }
}

// ── silence ─────────────────────────────────────────────────────────────

/// Seconds of wire silence before the `quiet Ns` chip appears.
pub const QUIET_CHIP_SECS: u64 = 8;

/// Seconds of wire silence before the row is dimmed.
pub const QUIET_DIM_SECS: u64 = 30;

/// The silence chip for `secs` seconds without a delta.
pub open spec fn quiet_text(secs: nat) -> Option<Seq<char>> {
    if secs >= QUIET_CHIP_SECS {
        Some("quiet "@ + elapsed_text(secs))
    } else {
        None
    }
}

/// How long since the last text or reasoning delta, or `None` while the stream
/// is fresh.
pub fn quiet_status(time_since_last_token: Duration) -> (r: Option<String>)
    ensures
        crate::slicing::opt_text(r) == quiet_text(time_since_last_token.secs()),
{
    let secs = time_since_last_token.as_secs();
    if secs >= QUIET_CHIP_SECS {
        Some(cat2("quiet ", fmt_elapsed(time_since_last_token).as_str()))
    } else {
        None
    }
}

// ── throughput ──────────────────────────────────────────────────────────

/// Trailing window over which the live rate is measured, in seconds.
pub const TOKEN_RATE_WINDOW_SECS: u64 = 5;

/// Least spread between the oldest and the newest sample for which a rate is
/// reported, in milliseconds.
pub const TOKEN_RATE_MIN_SPAN_MS: u64 = 1200;

/// The samples left once those older than `cutoff` have been dropped from the
/// front, as long as more than two remain.
pub open spec fn fresh_samples(samples: Seq<(Duration, u64)>, cutoff: nat) -> Seq<(Duration, u64)>
    decreases samples.len(),
{
    if samples.len() > 2 && samples[0].0@ < cutoff {
        fresh_samples(samples.skip(1), cutoff)
    } else {
        samples
    }
}

/// Where the trailing window begins, seen from the newest sample.
pub open spec fn window_start(samples: Seq<(Duration, u64)>) -> nat {
    let newest = samples.last().0@;
    let window = (TOKEN_RATE_WINDOW_SECS * 1_000_000_000) as nat;
    if newest >= window {
        (newest - window) as nat
    } else {
        0
    }
}

/// Drop samples older than the rate window relative to the newest. A sample is
/// the time since the stream began and the cumulative token count then. At
/// least two samples stay.
pub fn trim_token_samples(samples: &mut VecDeque<(Duration, u64)>)
    ensures
        old(samples)@.len() == 0 ==> final(samples)@ == old(samples)@,
        old(samples)@.len() > 0 ==> final(samples)@ == fresh_samples(
            old(samples)@,
            window_start(old(samples)@),
        ),
{
    let count = samples.len();
    if count == 0 {
        return;
    }
    let newest = samples[count - 1].0;
    let cutoff = newest.saturating_sub(Duration::from_secs(TOKEN_RATE_WINDOW_SECS));
    while samples.len() > 2 && samples[0].0.is_shorter_than(&cutoff)
        invariant
            samples@.len() > 0,
            fresh_samples(old(samples)@, cutoff@) == fresh_samples(samples@, cutoff@),
        decreases samples@.len(),
    {
        let ghost before = samples@;
        let _ = samples.pop_front();
        assert(samples@ =~= before.skip(1));
    }
}

/// Tokens per second in double precision, as a fraction.
pub open spec fn rate_double(tokens: nat, nanos: nat) -> (nat, nat) {
    let secs = seconds_double(nanos);
    quotient_double(double_of(tokens) * secs.1, secs.0)
}

/// Whole tokens per second between the oldest and the newest sample: nothing
/// where they lie too close together or less than one token per second came. The
/// rate is taken in double precision and then rounded.
pub open spec fn token_rate(samples: Seq<(Duration, u64)>) -> Option<nat> {
    if samples.len() == 0 {
        None
    } else {
        let span = samples.last().0@ - samples[0].0@;
        let tokens = if samples.last().1 >= samples[0].1 {
            samples.last().1 - samples[0].1
        } else {
            0
        };
        let rate = rate_double(tokens as nat, span as nat);
        if span < TOKEN_RATE_MIN_SPAN_MS * 1_000_000 || rate.0 < rate.1 {
            None
        } else {
            Some(nearest(rate.0, rate.1))
        }
    }
}

/// Tokens per second over the retained samples, rounded to a whole number (a
/// half to the even one). `None` when there is not enough spread for the rate
/// to mean anything.
pub fn windowed_token_rate(samples: &VecDeque<(Duration, u64)>) -> (r: Option<u128>)
    ensures
        match r {
            Some(rate) => token_rate(samples@) == Some(rate as nat),
            None => token_rate(samples@) is None,
        },
{
    let count = samples.len();
    if count == 0 {
        return None;
    }
    let oldest = samples[0];
    let newest = samples[count - 1];
    let span = newest.0.saturating_sub(oldest.0);
    if span.is_shorter_than(&Duration::from_millis(TOKEN_RATE_MIN_SPAN_MS)) {
        return None;
    }
    let tokens: u64 = newest.1.saturating_sub(oldest.1);
    let (secs, unit) = seconds_of(span.as_nanos());
    if tokens == 0 {
        proof {
            crate::doubles::lemma_nothing_over(secs as nat, unit as nat);
        }
        return None;
    }
    let double = double_of_u64(tokens);
    proof {
        assert(0 < double * unit <= 0x2_0000_0000_0000_0000 * 0x10_0000_0000_0000) by (nonlinear_arith)
            requires
                0 < double <= 0x2_0000_0000_0000_0000,
                0 < unit <= 0x10_0000_0000_0000,
        ;
    }
    let (whole, part) = quotient_of(double * unit, secs);
    if whole < part {
        return None;
    }
    Some(nearest_u128(whole, part))
}

// ── phases ──────────────────────────────────────────────────────────────

/// Live or finished thinking.
#[derive(Debug, Clone, Copy, PartialEq, Eq)]
pub enum ThinkingStatus {
    /// Reasoning chunks are arriving.
    Live,
    /// Reasoning ended and text has started; how long it took.
    Done(Duration),
}

/// Least time a soft phase stays on screen before another soft phase can
/// replace it, in milliseconds.
pub const MIN_PHASE_DWELL_MS: u64 = 400;

/// Least time `Thinking` is held before `Responding` may take over, in
/// milliseconds.
pub const MIN_THINKING_DISPLAY_MS: u64 = 2000;

/// The honest spinner phase. Each variant stands for a real stream signal.
#[derive(Debug, Clone, Copy, PartialEq, Eq, Structural)]
pub enum SpinnerPhase {
    /// Request sent, connection live, no bytes yet.
    Requesting,
    /// Extended-thinking chunks arriving.
    Thinking,
    /// Output text or tokens streaming.
    Responding,
    /// Stream ended; tools executing in the agentic gap.
    ToolUse,
    /// Turn active but none of the above.
    Working,
    /// Context compaction before a submit.
    Compacting,
    /// Provider retry after a transient failure.
    NetworkRecovery,
}

impl SpinnerPhase {
    /// The one-word label of a phase.
    pub open spec fn label_text(self) -> Seq<char> {
        match self {
            SpinnerPhase::Requesting => "Requesting"@,
            SpinnerPhase::Thinking => "Thinking"@,
            SpinnerPhase::Responding => "Responding"@,
            SpinnerPhase::ToolUse | SpinnerPhase::Working => "Working"@,
            SpinnerPhase::Compacting => "Compacting"@,
            SpinnerPhase::NetworkRecovery => "Recovering"@,
        }
    }

    /// Honest one-word label.
    pub fn label(self) -> (r: &'static str)
        ensures
            r@ == self.label_text(),
    {
        match self {
            SpinnerPhase::Requesting => "Requesting",
            SpinnerPhase::Thinking => "Thinking",
            SpinnerPhase::Responding => "Responding",
            SpinnerPhase::ToolUse | SpinnerPhase::Working => "Working",
            SpinnerPhase::Compacting => "Compacting",
            SpinnerPhase::NetworkRecovery => "Recovering",
        }
    }

    /// Compaction and network recovery are entered and left at once.
    pub open spec fn is_hard(self) -> bool {
        self == SpinnerPhase::Compacting || self == SpinnerPhase::NetworkRecovery
    }
}

/// Raw per-tick signals the phase machine reduces to a phase.
#[derive(Debug, Clone, Copy)]
pub struct RawPhaseInputs {
    pub compacting: bool,
    pub network_recovery: bool,
    pub is_streaming: bool,
    pub thinking_live: bool,
    pub thinking_ended: bool,
    pub output_started: bool,
    pub tools_pending: bool,
    pub turn_active: bool,
}

/// Stored phase with the points in time that the dwell rules read.
#[derive(Debug, Clone, Copy)]
pub struct SpinnerState {
    pub phase: SpinnerPhase,
    pub entered_at: Instant,
    /// When `Thinking` was first seen this turn.
    pub thinking_first_seen_at: Option<Instant>,
}

impl SpinnerState {
    pub fn new(now: Instant) -> (r: Self)
        ensures
            r.phase == SpinnerPhase::Working,
            r.entered_at == now,
            r.thinking_first_seen_at is None,
    {
        SpinnerState { phase: SpinnerPhase::Working, entered_at: now, thinking_first_seen_at: None }
    }
}

/// The phase the raw signals ask for: the first of the signals that holds, in
/// order of urgency.
pub open spec fn wanted_phase(r: RawPhaseInputs) -> SpinnerPhase {
    if r.compacting {
        SpinnerPhase::Compacting
    } else if r.network_recovery {
        SpinnerPhase::NetworkRecovery
    } else if r.thinking_live {
        SpinnerPhase::Thinking
    } else if r.is_streaming && (r.thinking_ended || r.output_started) {
        SpinnerPhase::Responding
    } else if r.tools_pending {
        SpinnerPhase::ToolUse
    } else if r.is_streaming && r.turn_active {
        SpinnerPhase::Requesting
    } else {
        SpinnerPhase::Working
    }
}

/// The phase the raw signals want, before any dwell.
pub fn desired_phase(r: &RawPhaseInputs) -> (p: SpinnerPhase)
    ensures
        p == wanted_phase(*r),
{
    if r.compacting {
        return SpinnerPhase::Compacting;
    }
    if r.network_recovery {
        return SpinnerPhase::NetworkRecovery;
    }
    if r.thinking_live {
        return SpinnerPhase::Thinking;
    }
    if r.is_streaming && (r.thinking_ended || r.output_started) {
        return SpinnerPhase::Responding;
    }
    if r.tools_pending {
        return SpinnerPhase::ToolUse;
    }
    if r.is_streaming && r.turn_active {
        return SpinnerPhase::Requesting;
    }
    SpinnerPhase::Working
}

/// `Thinking` has not been on screen long enough to give way to `Responding`.
pub open spec fn thinking_is_held(first_seen: Option<Instant>, now: Instant) -> bool {
    match first_seen {
        Some(t) => now.since(t) < MIN_THINKING_DISPLAY_MS * 1_000_000,
        None => false,
    }
}

/// The phase that follows `current`.
pub open spec fn phase_after(
    current: SpinnerPhase,
    entered_at: Instant,
    thinking_first_seen_at: Option<Instant>,
    now: Instant,
    r: RawPhaseInputs,
) -> SpinnerPhase {
    let desired = wanted_phase(r);
    if desired.is_hard() || current.is_hard() {
        desired
    } else if current == SpinnerPhase::Thinking && desired == SpinnerPhase::Responding
        && thinking_is_held(thinking_first_seen_at, now) {
        SpinnerPhase::Thinking
    } else if now.since(entered_at) < MIN_PHASE_DWELL_MS * 1_000_000 {
        current
    } else {
        desired
    }
}

/// Compute the next phase from the current one. Compaction and network
/// recovery win at once, entering and leaving; `Thinking` is held for a beat;
/// every other change waits for the dwell floor.
pub fn next_phase(
    current: SpinnerPhase,
    entered_at: Instant,
    thinking_first_seen_at: Option<Instant>,
    now: Instant,
    r: RawPhaseInputs,
) -> (p: SpinnerPhase)
    ensures
        p == phase_after(current, entered_at, thinking_first_seen_at, now, r),
{
    let desired = desired_phase(&r);
    if matches!(desired, SpinnerPhase::Compacting | SpinnerPhase::NetworkRecovery) || matches!(
        current,
        SpinnerPhase::Compacting | SpinnerPhase::NetworkRecovery
    ) {
        return desired;
    }
    let held = match thinking_first_seen_at {
        Some(t) => now.duration_since(t).is_shorter_than(
            &Duration::from_millis(MIN_THINKING_DISPLAY_MS),
        ),
        None => false,
    };
    if current == SpinnerPhase::Thinking && desired == SpinnerPhase::Responding && held {
        return SpinnerPhase::Thinking;
    }
    if desired == current {
        return current;
    }
    if now.duration_since(entered_at).is_shorter_than(&Duration::from_millis(MIN_PHASE_DWELL_MS)) {
        return current;
    }
    desired
}

/// A phase is never made up: what follows is either what was shown or what the
/// signals ask for.
pub proof fn law_phase_is_never_fabricated(
    current: SpinnerPhase,
    entered_at: Instant,
    thinking_first_seen_at: Option<Instant>,
    now: Instant,
    r: RawPhaseInputs,
)
    ensures
        phase_after(current, entered_at, thinking_first_seen_at, now, r) == current || phase_after(
            current,
            entered_at,
            thinking_first_seen_at,
            now,
            r,
        ) == wanted_phase(r),
{
}

/// Between two soft phases the label cannot change before the dwell floor.
pub proof fn law_soft_change_waits_for_dwell(
    current: SpinnerPhase,
    entered_at: Instant,
    thinking_first_seen_at: Option<Instant>,
    now: Instant,
    r: RawPhaseInputs,
)
    requires
        !current.is_hard(),
        !wanted_phase(r).is_hard(),
        phase_after(current, entered_at, thinking_first_seen_at, now, r) != current,
    ensures
        now.since(entered_at) >= MIN_PHASE_DWELL_MS * 1_000_000,
{
}

/// Compaction and network recovery are shown as soon as they are true and
/// leave as soon as they end.
pub proof fn law_hard_phases_win_at_once(
    current: SpinnerPhase,
    entered_at: Instant,
    thinking_first_seen_at: Option<Instant>,
    now: Instant,
    r: RawPhaseInputs,
)
    requires
        r.compacting || r.network_recovery || current.is_hard(),
    ensures
        phase_after(current, entered_at, thinking_first_seen_at, now, r) == wanted_phase(r),
{
}

proof fn lemma_fresh_samples(samples: Seq<(Duration, u64)>, cutoff: nat)
    requires
        samples.len() > 0,
    ensures
        fresh_samples(samples, cutoff).len() > 0,
        fresh_samples(samples, cutoff).last() == samples.last(),
        samples.len() >= 2 ==> fresh_samples(samples, cutoff).len() >= 2,
        fresh_samples(samples, cutoff).len() <= samples.len(),
        fresh_samples(fresh_samples(samples, cutoff), cutoff) == fresh_samples(samples, cutoff),
        fresh_samples(samples, cutoff).len() > 2 ==> fresh_samples(samples, cutoff)[0].0@ >= cutoff,
        fresh_samples(samples, cutoff) == samples.skip(
            samples.len() - fresh_samples(samples, cutoff).len(),
        ),
    decreases samples.len(),
{
    if samples.len() > 2 && samples[0].0@ < cutoff {
        lemma_fresh_samples(samples.skip(1), cutoff);
        let rest = fresh_samples(samples.skip(1), cutoff);
        assert(samples.skip(1).skip(samples.skip(1).len() - rest.len()) =~= samples.skip(
            samples.len() - rest.len(),
        ));
    } else {
        assert(samples.skip(0) =~= samples);
    }
}

/// Trimming drops a prefix and nothing else: the newest sample stays, two
/// samples stay where there were two, all that stay beyond two lie in the
/// window, and trimming again changes nothing.
pub proof fn law_trim_keeps_newest(samples: Seq<(Duration, u64)>)
    requires
        samples.len() > 0,
    ensures
        ({
            let kept = fresh_samples(samples, window_start(samples));
            &&& kept == samples.skip(samples.len() - kept.len())
            &&& kept.len() > 0
            &&& kept.last() == samples.last()
            &&& samples.len() >= 2 ==> kept.len() >= 2
            &&& kept.len() > 2 ==> kept[0].0@ >= window_start(samples)
            &&& fresh_samples(kept, window_start(kept)) == kept
        }),
{
    lemma_fresh_samples(samples, window_start(samples));
}

// ── the row ─────────────────────────────────────────────────────────────

/// The status row, split so that glyph, label and metadata can be styled
/// apart.
pub struct StatusSegments {
    /// Spinner glyph for this frame.
    pub glyph: &'static str,
    /// Trailing metadata, joined by `·` and led by a separator.
    pub body: String,
    /// The wire has been silent past [`QUIET_DIM_SECS`].
    pub dim: bool,
}

/// The rate chip, where there is a rate.
pub open spec fn rate_chip(rate: Option<u128>) -> Seq<Seq<char>> {
    match rate {
        Some(n) => seq![decimal(n as nat) + " tok/s"@],
        None => Seq::empty(),
    }
}

/// The output-token chip followed by the rate chip, once there is output.
pub open spec fn output_chips(output_tokens: nat, rate: Option<u128>) -> Seq<Seq<char>> {
    if output_tokens > 0 {
        seq![tokens_text(output_tokens) + " tokens"@] + rate_chip(rate)
    } else {
        Seq::empty()
    }
}

/// The chips between the clock and the silence chip.
pub open spec fn work_chips(
    output_tokens: nat,
    rate: Option<u128>,
    thinking: Option<ThinkingStatus>,
    thinking_tokens: nat,
) -> Seq<Seq<char>> {
    match thinking {
        Some(ThinkingStatus::Live) => {
            (if thinking_tokens > 0 {
                seq![tokens_text(thinking_tokens) + " thinking"@]
            } else {
                Seq::empty()
            }) + rate_chip(rate)
        },
        Some(ThinkingStatus::Done(d)) => {
            seq![
                "thought "@ + decimal(
                    if d.secs() > 1 {
                        d.secs()
                    } else {
                        1
                    },
                ) + "s"@,
            ] + output_chips(output_tokens, rate)
        },
        None => output_chips(output_tokens, rate),
    }
}

/// The silence chip, where the silence is long enough.
pub open spec fn quiet_chip(secs: nat) -> Seq<Seq<char>> {
    match quiet_text(secs) {
        Some(t) => seq![t],
        None => Seq::empty(),
    }
}

/// All chips of the row: the clock, the work, the silence.
pub open spec fn status_chips(
    elapsed: nat,
    output_tokens: nat,
    rate: Option<u128>,
    quiet: nat,
    thinking: Option<ThinkingStatus>,
    thinking_tokens: nat,
) -> Seq<Seq<char>> {
    seq![elapsed_text(elapsed)] + work_chips(output_tokens, rate, thinking, thinking_tokens)
        + quiet_chip(quiet)
}

fn push_rate(parts: &mut Vec<String>, rate: Option<u128>)
    ensures
        texts(final(parts)@) == texts(old(parts)@) + rate_chip(rate),
{
    if let Some(n) = rate {
        let mut chip = String::new();
        push_decimal(&mut chip, n);
        chip.push_str(" tok/s");
        assert(chip@ =~= decimal(n as nat) + " tok/s"@);
        parts.push(chip);
    }
    assert(texts(parts@) =~= texts(old(parts)@) + rate_chip(rate));
}

fn push_output(parts: &mut Vec<String>, output_tokens: u64, rate: Option<u128>)
    ensures
        texts(final(parts)@) == texts(old(parts)@) + output_chips(output_tokens as nat, rate),
{
    if output_tokens > 0 {
        parts.push(cat2(fmt_tokens(output_tokens).as_str(), " tokens"));
        push_rate(parts, rate);
    }
    assert(texts(parts@) =~= texts(old(parts)@) + output_chips(output_tokens as nat, rate));
}

/// Build the honest status row. `thinking` selects which token counter leads;
/// the counts and the rate come straight off the wire; the time since the last
/// token drives the silence chip and the `dim` flag.
pub fn status_segments(
    tick: usize,
    elapsed: Duration,
    output_tokens: u64,
    token_rate: Option<u128>,
    time_since_last_token: Duration,
    thinking: Option<ThinkingStatus>,
    thinking_tokens: u64,
) -> (r: StatusSegments)
    ensures
        r.glyph@ == frame_glyph(tick as nat),
        r.body@ == " · "@ + joined(
            status_chips(
                elapsed.secs(),
                output_tokens as nat,
                token_rate,
                time_since_last_token.secs(),
                thinking,
                thinking_tokens as nat,
            ),
            " · "@,
        ),
        r.dim == (time_since_last_token.secs() >= QUIET_DIM_SECS),
{
    let mut parts: Vec<String> = Vec::new();
    parts.push(fmt_elapsed(elapsed));
    let ghost clock = texts(parts@);
    assert(clock =~= seq![elapsed_text(elapsed.secs())]);
    match thinking {
        Some(ThinkingStatus::Live) => {
            if thinking_tokens > 0 {
                parts.push(cat2(fmt_tokens(thinking_tokens).as_str(), " thinking"));
            }
            push_rate(&mut parts, token_rate);
        },
        Some(ThinkingStatus::Done(d)) => {
            let secs = d.as_secs();
            let shown: u64 = if secs > 1 {
                secs
            } else {
                1
            };
            parts.push(cat3("thought ", decimal_text(shown).as_str(), "s"));
            push_output(&mut parts, output_tokens, token_rate);
        },
        None => {
            push_output(&mut parts, output_tokens, token_rate);
        },
    }
    assert(texts(parts@) =~= clock + work_chips(
        output_tokens as nat,
        token_rate,
        thinking,
        thinking_tokens as nat,
    ));
    if let Some(q) = quiet_status(time_since_last_token) {
        parts.push(q);
    }
    assert(texts(parts@) =~= status_chips(
        elapsed.secs(),
        output_tokens as nat,
        token_rate,
        time_since_last_token.secs(),
        thinking,
        thinking_tokens as nat,
    ));
    StatusSegments {
        glyph: frame_for(tick),
        body: cat2(" · ", join(&parts, " · ").as_str()),
        dim: time_since_last_token.as_secs() >= QUIET_DIM_SECS,
    }
}

/// Footer under a completed assistant message: just the elapsed time.
pub fn format_finished(elapsed: Duration) -> (r: String)
    ensures
        r@ == elapsed_text(elapsed.secs()),
{
    fmt_elapsed(elapsed)
}

/// The chips of the compaction row: the clock, the size of the context before,
/// the estimated size of the summary so far.
pub open spec fn compact_chips(elapsed: nat, pre_tokens: nat, output_chars: nat) -> Seq<Seq<char>> {
    seq![elapsed_text(elapsed)] + (if pre_tokens > 0 {
        seq![tokens_text(pre_tokens) + " tokens"@]
    } else {
        Seq::empty()
    }) + (if output_chars > 0 {
        seq!["↓ "@ + tokens_text(output_chars / 4) + " tokens"@]
    } else {
        Seq::empty()
    })
}

/// Status body while compacting: glyph, `Compacting`, elapsed time, input
/// magnitude and live summary output (four characters to a token).
pub fn format_compact_status(
    tick: usize,
    elapsed: Duration,
    pre_tokens: u64,
    output_chars: u64,
) -> (r: String)
    ensures
        r@ == frame_glyph(tick as nat) + " Compacting · "@ + joined(
            compact_chips(elapsed.secs(), pre_tokens as nat, output_chars as nat),
            " · "@,
        ),
{
    let mut parts: Vec<String> = Vec::new();
    parts.push(fmt_elapsed(elapsed));
    if pre_tokens > 0 {
        parts.push(cat2(fmt_tokens(pre_tokens).as_str(), " tokens"));
    }
    if output_chars > 0 {
        parts.push(cat3("↓ ", fmt_tokens(output_chars / 4).as_str(), " tokens"));
    }
    assert(texts(parts@) =~= compact_chips(elapsed.secs(), pre_tokens as nat, output_chars as nat));
    cat3(frame_for(tick), " Compacting · ", join(&parts, " · ").as_str())
}

proof fn lemma_two_digits(n: nat)
    requires
        n < 60,
    ensures
        two_digits(n).len() == 2,
        crate::showing::value_of(two_digits(n)) == n,
{
    if n < 10 {
        let t = seq!['0'].push(digit(n));
        reveal_with_fuel(crate::showing::value_of, 3);
        assert(t.drop_last() =~= seq!['0']);
        assert(seq!['0'].drop_last() =~= Seq::<char>::empty());
        crate::showing::law_decimal_reads_back(n);
        assert(decimal(n) =~= seq![digit(n)]);
        assert(decimal(n).drop_last() =~= Seq::<char>::empty());
    } else {
        crate::showing::law_decimal_reads_back(n);
        assert(decimal(n) =~= decimal(n / 10).push(digit(n % 10)));
        assert(decimal(n / 10) =~= seq![digit(n / 10)]);
    }
}

/// Two times that differ by a second are never written alike.
pub proof fn law_times_are_told_apart(a: nat, b: nat)
    requires
        elapsed_text(a) == elapsed_text(b),
    ensures
        a == b,
{
    reveal_strlit("m");
    reveal_strlit("s");
    let (s, t) = (elapsed_text(a), elapsed_text(b));
    if a >= 60 {
        lemma_two_digits(a % 60);
    } else {
        lemma_short_decimal(a);
    }
    if b >= 60 {
        lemma_two_digits(b % 60);
    } else {
        lemma_short_decimal(b);
    }
    crate::showing::lemma_decimal_is_digits(a / 60);
    crate::showing::lemma_decimal_is_digits(b / 60);
    if a < 60 && b < 60 {
        assert(s.drop_last() =~= decimal(a));
        assert(t.drop_last() =~= decimal(b));
        crate::showing::law_numbers_are_told_apart(a, b);
    } else if a >= 60 && b >= 60 {
        let n = s.len();
        assert(s.subrange(n - 3, n - 1) =~= two_digits(a % 60));
        assert(t.subrange(n - 3, n - 1) =~= two_digits(b % 60));
        assert(s.take(n - 4) =~= decimal(a / 60));
        assert(t.take(n - 4) =~= decimal(b / 60));
        crate::showing::law_numbers_are_told_apart(a / 60, b / 60);
        assert(two_digits(a % 60) == two_digits(b % 60));
        assert(a == 60 * (a / 60) + a % 60);
        assert(b == 60 * (b / 60) + b % 60);
    } else {
        assert(a < 60 ==> s.len() <= 3);
        assert(b < 60 ==> t.len() <= 3);
        assert(a >= 60 ==> s.len() >= 5);
        assert(b >= 60 ==> t.len() >= 5);
    }
}

proof fn lemma_short_decimal(n: nat)
    requires
        n < 60,
    ensures
        decimal(n).len() <= 2,
{
    if n >= 10 {
        assert(decimal(n) =~= decimal(n / 10).push(digit(n % 10)));
        assert(decimal(n / 10) =~= seq![digit(n / 10)]);
    }
}

/// Small counts are written out, and thousands without their hundreds behind ten
/// thousand.
pub proof fn law_small_counts_are_exact(n: nat)
    ensures
        n < 1_000 ==> crate::showing::value_of(tokens_text(n)) == n,
        10_000 <= n < 1_000_000 ==> tokens_text(n).len() > 0 && tokens_text(n).last() == 'k'
            && crate::showing::value_of(tokens_text(n).drop_last()) == n / 1_000,
        1_000 <= n < 1_000_000 ==> tokens_text(n).last() == 'k',
        n >= 1_000_000 ==> tokens_text(n).last() == 'M',
{
    reveal_strlit("k");
    reveal_strlit("M");
    crate::showing::law_decimal_reads_back(n);
    crate::showing::law_decimal_reads_back(n / 1_000);
    if 10_000 <= n < 1_000_000 {
        assert(tokens_text(n).drop_last() =~= decimal(n / 1_000));
    }
}

/// The status names every figure that is known: the time, what was thought, what came
/// out and how fast, and a silence of eight seconds or more.
pub proof fn law_status_names_every_figure(
    elapsed: nat,
    output_tokens: nat,
    rate: Option<u128>,
    quiet: nat,
    thinking: Option<ThinkingStatus>,
    thinking_tokens: nat,
)
    ensures
        ({
            let chips = status_chips(elapsed, output_tokens, rate, quiet, thinking, thinking_tokens);
            let live = thinking == Some(ThinkingStatus::Live);
            &&& chips.contains(elapsed_text(elapsed))
            &&& quiet >= 8 ==> chips.contains("quiet "@ + elapsed_text(quiet))
            &&& quiet < 8 ==> chips.len() <= 4
            &&& live && thinking_tokens > 0 ==> chips.contains(tokens_text(thinking_tokens) + " thinking"@)
            &&& !live && output_tokens > 0 ==> chips.contains(tokens_text(output_tokens) + " tokens"@)
            &&& rate is Some && (live || output_tokens > 0) ==> chips.contains(decimal(rate->0 as nat) + " tok/s"@)
            &&& thinking matches Some(ThinkingStatus::Done(d)) ==> d.secs() >= 1 ==> chips.contains(
                "thought "@ + decimal(d.secs()) + "s"@,
            )
        }),
{
    let chips = status_chips(elapsed, output_tokens, rate, quiet, thinking, thinking_tokens);
    let work = work_chips(output_tokens, rate, thinking, thinking_tokens);
    assert(chips[0] == elapsed_text(elapsed));
    if quiet >= 8 {
        assert(chips[1int + work.len()] == "quiet "@ + elapsed_text(quiet));
    }
    match thinking {
        Some(ThinkingStatus::Live) => {
            if thinking_tokens > 0 {
                assert(chips[1] == tokens_text(thinking_tokens) + " thinking"@);
            }
            if rate is Some {
                assert(chips[work.len() as int] == decimal(rate->0 as nat) + " tok/s"@);
            }
        },
        Some(ThinkingStatus::Done(d)) => {
            if d.secs() >= 1 {
                assert(chips[1] == "thought "@ + decimal(d.secs()) + "s"@);
            }
            if output_tokens > 0 {
                assert(chips[2] == tokens_text(output_tokens) + " tokens"@);
                if rate is Some {
                    assert(chips[3] == decimal(rate->0 as nat) + " tok/s"@);
                }
            }
        },
        None => {
            if output_tokens > 0 {
                assert(chips[1] == tokens_text(output_tokens) + " tokens"@);
                if rate is Some {
                    assert(chips[2] == decimal(rate->0 as nat) + " tok/s"@);
                }
            }
        },
    }
}

/// The rate is that of the whole window: only its first and its last sample matter, and
/// a window of less than the least span has none.
pub proof fn law_rate_is_that_of_the_window(samples: Seq<(Duration, u64)>)
    requires
        samples.len() > 0,
    ensures
        token_rate(samples) == token_rate(seq![samples[0], samples.last()]),
        samples.last().0@ - samples[0].0@ < 1_200_000_000 ==> token_rate(samples) is None,
{
    let two = seq![samples[0], samples.last()];
    assert(two.last() == samples.last());
}

/// Of several things that go on, the most urgent gives the phase: compaction, then
/// trouble with the network, thinking, the answer, tools, and last the wait for an
/// answer. Where none goes on the phase is that of plain work.
pub proof fn law_the_most_urgent_gives_the_phase(r: RawPhaseInputs)
    ensures
        r.compacting <==> wanted_phase(r) == SpinnerPhase::Compacting,
        !r.compacting && r.network_recovery <==> wanted_phase(r) == SpinnerPhase::NetworkRecovery,
        !r.compacting && !r.network_recovery && r.thinking_live <==> wanted_phase(r) == SpinnerPhase::Thinking,
        wanted_phase(r) == SpinnerPhase::Responding ==> r.is_streaming && !r.thinking_live,
        r.is_streaming && r.output_started && !r.compacting && !r.network_recovery && !r.thinking_live
            ==> wanted_phase(r) == SpinnerPhase::Responding,
        r.is_streaming && r.thinking_ended && !r.compacting && !r.network_recovery && !r.thinking_live
            ==> wanted_phase(r) == SpinnerPhase::Responding,
        wanted_phase(r) == SpinnerPhase::ToolUse ==> r.tools_pending,
        r.tools_pending && !r.compacting && !r.network_recovery && !r.thinking_live && !r.is_streaming
            ==> wanted_phase(r) == SpinnerPhase::ToolUse,
        wanted_phase(r) == SpinnerPhase::Requesting ==> r.is_streaming && r.turn_active && !r.output_started
            && !r.tools_pending,
        r.is_streaming && r.turn_active && !r.compacting && !r.network_recovery && !r.thinking_live
            && !r.thinking_ended && !r.output_started && !r.tools_pending ==> wanted_phase(r)
            == SpinnerPhase::Requesting,
        !r.compacting && !r.network_recovery && !r.thinking_live && !r.is_streaming && !r.tools_pending
            ==> wanted_phase(r) == SpinnerPhase::Working,
{
}

/// The window goes back five seconds from the newest sample, and not before the start.
pub proof fn law_the_window_is_five_seconds(samples: Seq<(Duration, u64)>)
    ensures
        samples.last().0@ >= 5_000_000_000 ==> window_start(samples) + 5_000_000_000 == samples.last().0@,
        samples.last().0@ < 5_000_000_000 ==> window_start(samples) == 0,
{
}

} // verus!
