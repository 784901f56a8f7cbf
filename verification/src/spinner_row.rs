//! The row above the input that says what the turn is doing.
//!
//! ```text
//! ✦ Editing main.rs +3 -1 (1m04s · 1.2k tokens · 18 tok/s)
//!   □ Next: Wire spinner
//! ```
use std::collections::VecDeque;
use vstd::prelude::*;

use crate::activity::{
    active_tool_activity, activity_display_path, details_model, opt_details, file_name,
    turn_activity, Activity, ActivityDetails, ActivityLabel, TurnTools,
};
use crate::fitting::{shortened, truncate_str};
use crate::pinned::{less, Row};
use crate::roster::plural;
use crate::showing::{
    lemma_decimal_is_digits, lemma_has_in_sum, lemma_has_itself, lemma_has_trans, lemma_joined_has,
    lemma_middle_has, lemma_row_has, lemma_row_text_adds, lemma_sum_of_three, lemma_trimmed_has, row_text, shows,
};
use crate::slicing::{
    ends_with, group_texts, has_prefix, has_suffix, has_text, joined, opt_text, starts_with, trim, trimmed,
};
use crate::spinner::{compact_chips, elapsed_text, format_compact_status, frame_glyph, status_chips, status_segments, token_rate, windowed_token_rate, SpinnerPhase, ThinkingStatus, QUIET_DIM_SECS};
use crate::styled::{group_rows, line1, line2, row1, row2, rows, span, spans_of, Line, Span, Style, Tone};
use crate::tasks::{next_open, pick_next_open_task, Task};
use crate::text::{cat2, cat3, cat4, cat6, char_count, chars_of, count_text, decimal, decimal_text, text_between};
use crate::time::{Duration, Instant};

verus! {

broadcast use {group_texts, group_rows};

// ── silence ─────────────────────────────────────────────────────────────

/// How long the stream has been silent. Silence only counts while text or
/// reasoning is expected and nothing else is being shown.
pub open spec fn quiet_time(
    phase: SpinnerPhase,
    lifecycle_visible: bool,
    last_token_at: Option<Instant>,
    now: Instant,
) -> nat {
    if lifecycle_visible || !(phase == SpinnerPhase::Thinking || phase == SpinnerPhase::Responding) {
        0
    } else {
        match last_token_at {
            Some(last) => now.since(last),
            None => 0,
        }
    }
}

/// How long the stream has been silent.
pub fn stream_quiet_duration(
    phase: SpinnerPhase,
    lifecycle_visible: bool,
    last_token_at: Option<Instant>,
    now: Instant,
) -> (r: Duration)
    ensures
        r@ == quiet_time(phase, lifecycle_visible, last_token_at, now),
{
    if lifecycle_visible || !matches!(phase, SpinnerPhase::Thinking | SpinnerPhase::Responding) {
        return Duration::default();
    }
    match last_token_at {
        Some(last) => now.duration_since(last),
        None => Duration::default(),
    }
}

// ── what the turn waits for ─────────────────────────────────────────────

/// What a turn is waiting for, in numbers.
#[derive(Debug, Clone, Copy)]
pub struct WorkCounts {
    pub pending_calls: usize,
    pub batches: usize,
    pub open_results: usize,
    pub eager_dispatches: usize,
    pub alive_agents: usize,
    pub queued_prompts: usize,
    pub is_streaming: bool,
    pub response_bytes: usize,
    pub turn_started: bool,
}

/// `before`, the count, `what` and the ending of its plural.
pub open spec fn counted(before: Seq<char>, count: nat, what: Seq<char>) -> Seq<char> {
    before + decimal(count) + what + plural(count)
}

fn counted_text(before: &str, count: usize, what: &str) -> (r: String)
    ensures
        r@ == counted(before@, count as nat, what@),
{
    let ending = if count == 1 {
        ""
    } else {
        "s"
    };
    cat4(before, count_text(count).as_str(), what, ending)
}

/// What a turn without a tool to show is doing: the first that holds.
pub open spec fn waiting_for(c: WorkCounts) -> Seq<char> {
    if c.pending_calls > 0 {
        counted("dispatching "@, c.pending_calls as nat, " tool call"@)
    } else if c.batches > 0 {
        counted("running "@, c.batches as nat, " tool batch"@)
    } else if c.open_results > 0 {
        counted("waiting on "@, c.open_results as nat, " tool result"@)
    } else if c.eager_dispatches > 0 {
        counted("dispatching "@, c.eager_dispatches as nat, " eager tool"@)
    } else if c.alive_agents > 0 {
        counted("tracking "@, c.alive_agents as nat, " background agent"@)
    } else if c.queued_prompts > 0 {
        counted("waiting to drain "@, c.queued_prompts as nat, " queued prompt"@)
    } else if c.is_streaming && c.response_bytes == 0 {
        "waiting for first model event"@
    } else if c.is_streaming {
        "waiting for model stream"@
    } else if c.turn_started {
        "between model/tool steps"@
    } else {
        "active turn"@
    }
}

/// What a turn without a tool to show is doing.
pub fn working_activity_subject(c: &WorkCounts) -> (r: String)
    ensures
        r@ == waiting_for(*c),
{
    if c.pending_calls > 0 {
        return counted_text("dispatching ", c.pending_calls, " tool call");
    }
    if c.batches > 0 {
        return counted_text("running ", c.batches, " tool batch");
    }
    if c.open_results > 0 {
        return counted_text("waiting on ", c.open_results, " tool result");
    }
    if c.eager_dispatches > 0 {
        return counted_text("dispatching ", c.eager_dispatches, " eager tool");
    }
    if c.alive_agents > 0 {
        return counted_text("tracking ", c.alive_agents, " background agent");
    }
    if c.queued_prompts > 0 {
        return counted_text("waiting to drain ", c.queued_prompts, " queued prompt");
    }
    if c.is_streaming && c.response_bytes == 0 {
        return "waiting for first model event".to_owned();
    }
    if c.is_streaming {
        return "waiting for model stream".to_owned();
    }
    if c.turn_started {
        return "between model/tool steps".to_owned();
    }
    "active turn".to_owned()
}

// ── drawing ─────────────────────────────────────────────────────────────

/// The colour of character `i` in a text that a light sweeps over: the two
/// characters beside the head of the light and the head itself are lit.
pub open spec fn swept_tone(i: int, len: nat, tick: nat, base: Tone, sweep: Tone) -> Tone {
    let cycle = (if len == 0 {
        1nat
    } else {
        len
    }) + 4;
    let head = (tick % cycle) as int;
    if -1 <= head - i <= 1 {
        sweep
    } else {
        base
    }
}

/// A text that a light sweeps over; it stands still under reduced motion.
pub open spec fn swept(text: Seq<char>, tick: nat, base: Tone, sweep: Tone, reduced: bool) -> Row {
    if reduced {
        seq![(text, Style::in_tone(base))]
    } else {
        Seq::new(
            text.len(),
            |i: int| (seq![text[i]], Style::in_tone(swept_tone(i, text.len(), tick, base, sweep))),
        )
    }
}

/// Append a text that a light sweeps over.
pub fn push_swept_text(spans: &mut Vec<Span>, text: &str, tick: usize, base: Tone, sweep: Tone, reduced: bool)
    ensures
        spans_of(final(spans)@) == spans_of(old(spans)@) + swept(text@, tick as nat, base, sweep, reduced),
{
    let ghost before = spans_of(spans@);
    if reduced {
        spans.push(span(text.to_owned(), Style::fg(base)));
        assert(spans_of(spans@) =~= before + swept(text@, tick as nat, base, sweep, reduced));
        return;
    }
    let cs = chars_of(text);
    let cycle: u128 = (if cs.len() == 0 {
        1u128
    } else {
        cs.len() as u128
    }) + 4;
    let head: u128 = tick as u128 % cycle;
    let ghost all = swept(text@, tick as nat, base, sweep, reduced);
    let mut i: usize = 0;
    assert(spans_of(spans@) =~= before + all.take(0));
    while i < cs.len()
        invariant
            i <= cs@.len(),
            cs@ == text@,
            !reduced,
            all == swept(text@, tick as nat, base, sweep, reduced),
            cycle == (if text@.len() == 0 {
                1
            } else {
                text@.len() as int
            }) + 4,
            head == tick as nat % (cycle as nat),
            spans_of(spans@) == before + all.take(i as int),
        decreases cs@.len() - i,
    {
        let at: u128 = i as u128;
        let distance: u128 = if head >= at {
            head - at
        } else {
            at - head
        };
        let tone = if distance <= 1 {
            sweep
        } else {
            base
        };
        let one = text_between(&cs, i, i + 1);
        assert(one@ =~= seq![text@[i as int]]);
        spans.push(span(one, Style::fg(tone)));
        assert(before + all.take(i + 1) =~= (before + all.take(i as int)).push(all[i as int]));
        i += 1;
    }
    assert(all.take(i as int) =~= all);
}

/// The spans of an activity: its word, and the file with its lines or the
/// subject.
pub open spec fn activity_spans(a: Activity, tick: nat, reduced: bool) -> Row {
    let word = a.label.word();
    match a.file {
        Some((path, additions, deletions)) => swept(word, tick, Tone::TextSecondary, Tone::Warning, reduced)
            + seq![
            (" "@, Style::plain_style()),
            (shortened(file_name(path), 48), Style::in_tone(Tone::AccentSecondary)),
            (" "@, Style::plain_style()),
            ("+"@ + decimal(additions), Style::in_tone(Tone::DiffAdded)),
            (" "@, Style::plain_style()),
            ("-"@ + decimal(deletions), Style::in_tone(Tone::DiffRemoved)),
        ],
        None => match a.subject {
            Some(subject) => swept(word, tick, Tone::TextSecondary, Tone::Warning, reduced) + seq![
                (" "@, Style::plain_style()),
                (subject, Style::in_tone(Tone::AccentSecondary)),
            ],
            None => swept(word + "…"@, tick, Tone::Warning, Tone::TextPrimary, reduced),
        },
    }
}

/// Append the spans of an activity.
pub fn push_activity_spans(spans: &mut Vec<Span>, details: &ActivityDetails, tick: usize, reduced: bool)
    ensures
        spans_of(final(spans)@) == spans_of(old(spans)@) + activity_spans(
            details_model(*details),
            tick as nat,
            reduced,
        ),
{
    let ghost before = spans_of(spans@);
    let word = details.label.as_str();
    if let Some(file) = &details.file {
        push_swept_text(spans, word, tick, Tone::TextSecondary, Tone::Warning, reduced);
        let ghost head = swept(word@, tick as nat, Tone::TextSecondary, Tone::Warning, reduced);
        spans.push(span(" ".to_owned(), Style::plain()));
        spans.push(span(activity_display_path(file.path.as_str()), Style::fg(Tone::AccentSecondary)));
        spans.push(span(" ".to_owned(), Style::plain()));
        spans.push(span(cat2("+", count_text(file.additions).as_str()), Style::fg(Tone::DiffAdded)));
        spans.push(span(" ".to_owned(), Style::plain()));
        spans.push(span(cat2("-", count_text(file.deletions).as_str()), Style::fg(Tone::DiffRemoved)));
        assert(spans_of(spans@) =~= before + activity_spans(details_model(*details), tick as nat, reduced));
    } else if let Some(subject) = &details.subject {
        push_swept_text(spans, word, tick, Tone::TextSecondary, Tone::Warning, reduced);
        spans.push(span(" ".to_owned(), Style::plain()));
        spans.push(span(subject.clone(), Style::fg(Tone::AccentSecondary)));
        assert(spans_of(spans@) =~= before + activity_spans(details_model(*details), tick as nat, reduced));
    } else {
        let label = cat2(word, "…");
        push_swept_text(spans, label.as_str(), tick, Tone::Warning, Tone::TextPrimary, reduced);
    }
}

// ── the state ───────────────────────────────────────────────────────────

/// A compaction that is going on.
#[derive(Debug, Clone, Copy)]
pub struct Compacting {
    pub started_at: Instant,
    /// Size of the context before.
    pub pre_tokens: u64,
    pub output_chars: u64,
}

/// A provider that is being tried again.
#[derive(Debug)]
pub struct Recovery {
    pub status_code: Option<u64>,
    pub reason: String,
    pub provider: String,
    pub attempts: u64,
    pub updated_at: Instant,
    /// What the provider's status page says, where it reports an outage.
    pub outage: Option<String>,
}

/// What the stream says about itself before anything has arrived.
#[derive(Debug)]
pub struct Lifecycle {
    pub label: String,
    pub detail: Option<String>,
}

/// The turn, as far as the row shows it.
#[derive(Debug)]
pub struct SpinnerView {
    pub frame: usize,
    pub phase: SpinnerPhase,
    pub reduced_motion: bool,
    pub compacting: Option<Compacting>,
    pub recovery: Option<Recovery>,
    pub turn_started_at: Option<Instant>,
    pub streaming_started_at: Option<Instant>,
    pub lifecycle: Option<Lifecycle>,
    pub thinking_tokens: u64,
    pub last_token_at: Option<Instant>,
    pub thinking_started_at: Option<Instant>,
    pub thinking_ended_at: Option<Instant>,
    pub rate_samples: VecDeque<(Duration, u64)>,
    pub counts: WorkCounts,
    pub tools: TurnTools,
    pub tasks: Vec<Task>,
    /// The tip of this frame.
    pub tip: Option<String>,
}

// ── the first row ───────────────────────────────────────────────────────

/// The sign of a provider that is being tried again.
pub const RECOVERY_GLYPH: &'static str = "↻";

/// `s` without the `prefix`es in front.
pub open spec fn without_prefixes(s: Seq<char>, prefix: Seq<char>) -> Seq<char>
    decreases s.len(),
{
    if prefix.len() > 0 && has_prefix(s, prefix) {
        without_prefixes(s.skip(prefix.len() as int), prefix)
    } else {
        s
    }
}

fn strip_prefixes(s: &str, prefix: &str) -> (r: String)
    ensures
        r@ == without_prefixes(s@, prefix@),
{
    let n: usize = char_count(prefix);
    let mut out = s.to_owned();
    if n == 0 {
        return out;
    }
    while starts_with(out.as_str(), prefix)
        invariant
            n == prefix@.len(),
            n > 0,
            without_prefixes(s@, prefix@) == without_prefixes(out@, prefix@),
        decreases out@.len(),
    {
        let cs = chars_of(out.as_str());
        let rest = text_between(&cs, n, cs.len());
        assert(rest@ =~= out@.skip(n as int));
        out = rest;
    }
    out
}

/// The figures behind the verb, without the separators in front.
pub open spec fn tail_of(body: Seq<char>) -> Seq<char> {
    trimmed(without_prefixes(body, " · "@))
}

/// The row: the glyph, the verb, and the figures in brackets.
pub open spec fn status_row(glyph: Seq<char>, dim: bool, verb: Row, body: Seq<char>) -> Row {
    let tone = if dim {
        Tone::TextMuted
    } else {
        Tone::Warning
    };
    let tail = tail_of(body);
    let end = if tail.len() > 0 {
        seq![(" ("@ + tail + ")"@, Style::in_tone(Tone::TextMuted))]
    } else {
        Seq::empty()
    };
    seq![(glyph + " "@, Style::in_tone(tone).made_bold())] + verb + end
}

fn status_line(glyph: &str, dim: bool, verb: Vec<Span>, body: &str) -> (r: Line)
    ensures
        r@ == status_row(glyph@, dim, spans_of(verb@), body@),
{
    let tone = if dim {
        Tone::TextMuted
    } else {
        Tone::Warning
    };
    let mut spans: Vec<Span> = Vec::new();
    spans.push(span(cat2(glyph, " "), Style::fg(tone).bold()));
    let mut verb = verb;
    let ghost middle = spans_of(verb@);
    spans.append(&mut verb);
    let tail = trim(strip_prefixes(body, " · ").as_str());
    if char_count(tail.as_str()) > 0 {
        spans.push(span(cat3(" (", tail.as_str(), ")"), Style::fg(Tone::TextMuted)));
    }
    let line = Line { spans };
    assert(line@ =~= status_row(glyph@, dim, middle, body@));
    line
}

/// The verb while a provider is being tried again.
pub open spec fn recovery_label(r: Recovery) -> Seq<char> {
    match r.status_code {
        Some(code) => decimal(code as nat) + " "@ + r.reason@,
        None => r.reason@,
    }
}

/// The figures while a provider is being tried again.
pub open spec fn recovery_body(r: Recovery, now: Instant) -> Seq<char> {
    let base = " · retrying "@ + r.provider@ + " · attempt "@ + decimal(r.attempts as nat) + " · last "@ + (decimal(
        now.since(r.updated_at) / 1_000_000_000,
    ) + "s"@);
    match opt_text(r.outage) {
        Some(outage) => base + " · status "@ + shortened(outage, 72),
        None => base,
    }
}

fn recovery_line(rec: &Recovery, now: Instant) -> (r: Line)
    ensures
        r@ == status_row(
            RECOVERY_GLYPH@,
            false,
            seq![(recovery_label(*rec), Style::in_tone(Tone::Warning).made_bold())],
            recovery_body(*rec, now),
        ),
{
    let label = match rec.status_code {
        Some(code) => cat3(decimal_text(code).as_str(), " ", rec.reason.as_str()),
        None => rec.reason.clone(),
    };
    let last: u64 = now.duration_since(rec.updated_at).as_secs();
    let base = cat6(
        " · retrying ",
        rec.provider.as_str(),
        " · attempt ",
        decimal_text(rec.attempts).as_str(),
        " · last ",
        cat2(decimal_text(last).as_str(), "s").as_str(),
    );
    let body = match &rec.outage {
        Some(outage) => cat3(base.as_str(), " · status ", truncate_str(outage.as_str(), 72).as_str()),
        None => base,
    };
    let mut verb: Vec<Span> = Vec::new();
    verb.push(span(label, Style::fg(Tone::Warning).bold()));
    assert(spans_of(verb@) =~= seq![
        (recovery_label(*rec), Style::in_tone(Tone::Warning).made_bold()),
    ]);
    status_line(RECOVERY_GLYPH, false, verb, body.as_str())
}

impl SpinnerView {
    /// The stream's word on itself, shown until something has arrived.
    pub open spec fn lifecycle_shown(&self) -> Option<Lifecycle> {
        if self.counts.response_bytes == 0 && self.thinking_tokens == 0 {
            self.lifecycle
        } else {
            None
        }
    }

    /// How long the turn has been running.
    pub open spec fn turn_time(&self, now: Instant) -> nat {
        let since = match self.turn_started_at {
            Some(t) => Some(t),
            None => self.streaming_started_at,
        };
        match since {
            Some(t) => now.since(t),
            None => 0,
        }
    }

    /// How long the stream has been silent.
    pub open spec fn silence(&self, now: Instant) -> nat {
        if self.counts.is_streaming {
            quiet_time(self.phase, self.lifecycle_shown() is Some, self.last_token_at, now)
        } else {
            0
        }
    }

    /// Tokens that the response has so far, four bytes to a token.
    pub open spec fn live_tokens(&self) -> nat {
        if self.counts.is_streaming {
            (self.counts.response_bytes / 4) as nat
        } else {
            0
        }
    }

    /// What is known of the thinking. It goes by the phase that is shown.
    pub open spec fn thinking(&self) -> Option<ThinkingStatus> {
        match self.phase {
            SpinnerPhase::Thinking => Some(ThinkingStatus::Live),
            SpinnerPhase::Responding => match (self.thinking_started_at, self.thinking_ended_at) {
                (Some(start), Some(end)) => Some(
                    ThinkingStatus::Done(Duration::lasting(end.since(start))),
                ),
                _ => None,
            },
            _ => None,
        }
    }

    /// Tokens in a second, while the stream is live.
    pub open spec fn rate(&self) -> Option<u128> {
        if self.counts.is_streaming {
            match token_rate(self.rate_samples@) {
                Some(n) => Some(n as u128),
                None => None,
            }
        } else {
            None
        }
    }

    /// The figures behind the verb.
    pub open spec fn figures(&self, now: Instant) -> Seq<char> {
        let body = " · "@ + joined(
            status_chips(
                self.turn_time(now) / 1_000_000_000,
                self.live_tokens(),
                self.rate(),
                self.silence(now) / 1_000_000_000,
                self.thinking(),
                self.thinking_tokens as nat,
            ),
            " · "@,
        );
        let detail = match self.lifecycle_shown() {
            Some(l) => opt_text(l.detail),
            None => None,
        };
        match detail {
            Some(d) if trimmed(d).len() > 0 => body + " · "@ + trimmed(d),
            _ => body,
        }
    }

    /// The activity that is shown.
    pub open spec fn activity(&self) -> Option<Activity> {
        match self.phase {
            SpinnerPhase::Responding => turn_activity(self.tools),
            SpinnerPhase::ToolUse | SpinnerPhase::Working => match turn_activity(self.tools) {
                Some(a) => Some(a),
                None => Some(
                    Activity {
                        label: ActivityLabel::Working,
                        file: None,
                        subject: Some(waiting_for(self.counts)),
                    },
                ),
            },
            _ => None,
        }
    }

    /// The label where there is no activity.
    pub open spec fn label(&self) -> Seq<char> {
        let word = match self.lifecycle_shown() {
            Some(l) => l.label@,
            None => self.phase.label_text(),
        };
        if self.phase.is_hard() || has_suffix(word, "…"@) {
            word
        } else {
            word + "…"@
        }
    }

    /// The verb of the row.
    pub open spec fn verb(&self, now: Instant) -> Row {
        match self.activity() {
            Some(a) => activity_spans(a, self.frame as nat, self.reduced_motion),
            None => {
                let base = if self.silence(now) / 1_000_000_000 >= QUIET_DIM_SECS {
                    Tone::TextMuted
                } else {
                    Tone::Warning
                };
                swept(self.label(), self.frame as nat, base, Tone::TextPrimary, self.reduced_motion)
            },
        }
    }

    /// The first row.
    pub open spec fn first_row(&self, now: Instant) -> Row {
        match (self.compacting, self.recovery) {
            (Some(c), _) => row1(
                frame_glyph(self.frame as nat) + " Compacting · "@ + joined(
                    compact_chips(
                        now.since(c.started_at) / 1_000_000_000,
                        c.pre_tokens as nat,
                        c.output_chars as nat,
                    ),
                    " · "@,
                ),
                Style::in_tone(Tone::TextSecondary),
            ),
            (None, Some(r)) => status_row(
                RECOVERY_GLYPH@,
                false,
                seq![(recovery_label(r), Style::in_tone(Tone::Warning).made_bold())],
                recovery_body(r, now),
            ),
            (None, None) => status_row(
                frame_glyph(self.frame as nat),
                self.silence(now) / 1_000_000_000 >= QUIET_DIM_SECS,
                self.verb(now),
                self.figures(now),
            ),
        }
    }

    fn shown_lifecycle(&self) -> (r: Option<&Lifecycle>)
        ensures
            match r {
                Some(l) => self.lifecycle_shown() == Some(*l),
                None => self.lifecycle_shown() is None,
            },
    {
        if self.counts.response_bytes == 0 && self.thinking_tokens == 0 {
            match &self.lifecycle {
                Some(l) => Some(l),
                None => None,
            }
        } else {
            None
        }
    }

    fn shown_activity(&self) -> (r: Option<ActivityDetails>)
        ensures
            opt_details(r) == self.activity(),
    {
        match self.phase {
            SpinnerPhase::Responding => active_tool_activity(&self.tools),
            SpinnerPhase::ToolUse | SpinnerPhase::Working => match active_tool_activity(&self.tools) {
                Some(d) => Some(d),
                None => {
                    let d = ActivityDetails {
                        label: ActivityLabel::Working,
                        file: None,
                        subject: Some(working_activity_subject(&self.counts)),
                    };
                    Some(d)
                },
            },
            _ => None,
        }
    }

    fn shown_label(&self) -> (r: String)
        ensures
            r@ == self.label(),
    {
        let word = match self.shown_lifecycle() {
            Some(l) => l.label.clone(),
            None => self.phase.label().to_owned(),
        };
        if matches!(self.phase, SpinnerPhase::Compacting | SpinnerPhase::NetworkRecovery) || ends_with(
            word.as_str(),
            "…",
        ) {
            word
        } else {
            cat2(word.as_str(), "…")
        }
    }

    fn shown_thinking(&self) -> (r: Option<ThinkingStatus>)
        ensures
            r == self.thinking(),
    {
        broadcast use Duration::lemma_lasting;

        match self.phase {
            SpinnerPhase::Thinking => Some(ThinkingStatus::Live),
            SpinnerPhase::Responding => match (self.thinking_started_at, self.thinking_ended_at) {
                (Some(start), Some(end)) => {
                    let d = end.duration_since(start);
                    assert(Duration::lasting(d@) == d);
                    Some(ThinkingStatus::Done(d))
                },
                _ => None,
            },
            _ => None,
        }
    }

    fn silent_for(&self, now: Instant) -> (r: Duration)
        ensures
            r@ == self.silence(now),
    {
        if self.counts.is_streaming {
            stream_quiet_duration(
                self.phase,
                self.shown_lifecycle().is_some(),
                self.last_token_at,
                now,
            )
        } else {
            Duration::default()
        }
    }

    fn turn_line(&self, now: Instant) -> (r: Line)
        ensures
            r@ == status_row(
                frame_glyph(self.frame as nat),
                self.silence(now) / 1_000_000_000 >= QUIET_DIM_SECS,
                self.verb(now),
                self.figures(now),
            ),
    {
        let since = match self.turn_started_at {
            Some(t) => Some(t),
            None => self.streaming_started_at,
        };
        let elapsed = match since {
            Some(t) => now.duration_since(t),
            None => Duration::default(),
        };
        let live: u64 = if self.counts.is_streaming {
            (self.counts.response_bytes / 4) as u64
        } else {
            0
        };
        let rate: Option<u128> = if self.counts.is_streaming {
            windowed_token_rate(&self.rate_samples)
        } else {
            None
        };
        let silent = self.silent_for(now);
        let segs = status_segments(
            self.frame,
            elapsed,
            live,
            rate,
            silent,
            self.shown_thinking(),
            self.thinking_tokens,
        );
        let detail = match self.shown_lifecycle() {
            Some(l) => match &l.detail {
                Some(d) => trim(d.as_str()),
                None => String::new(),
            },
            None => String::new(),
        };
        let body = if char_count(detail.as_str()) > 0 {
            cat3(segs.body.as_str(), " · ", detail.as_str())
        } else {
            segs.body
        };
        assert(body@ == self.figures(now));
        let mut verb: Vec<Span> = Vec::new();
        assert(spans_of(verb@) =~= Seq::<(Seq<char>, Style)>::empty());
        match self.shown_activity() {
            Some(details) => {
                push_activity_spans(&mut verb, &details, self.frame, self.reduced_motion);
            },
            None => {
                let base = if segs.dim {
                    Tone::TextMuted
                } else {
                    Tone::Warning
                };
                let label = self.shown_label();
                push_swept_text(
                    &mut verb,
                    label.as_str(),
                    self.frame,
                    base,
                    Tone::TextPrimary,
                    self.reduced_motion,
                );
            },
        }
        assert(spans_of(verb@) =~= self.verb(now));
        status_line(segs.glyph, segs.dim, verb, body.as_str())
    }

    fn first_line(&self, now: Instant) -> (r: Line)
        ensures
            r@ == self.first_row(now),
    {
        if let Some(c) = self.compacting {
            return line1(
                format_compact_status(
                    self.frame,
                    now.duration_since(c.started_at),
                    c.pre_tokens,
                    c.output_chars,
                ),
                Style::fg(Tone::TextSecondary),
            );
        }
        match &self.recovery {
            Some(rec) => recovery_line(rec, now),
            None => self.turn_line(now),
        }
    }

    // ── the second row ──────────────────────────────────────────────────

    /// The second row: the task that comes next, else a tip while the turn is
    /// running.
    pub open spec fn second_rows(&self, width: nat) -> Seq<Row> {
        match next_open(self.tasks@) {
            Some(i) => {
                let subject = self.tasks@[i].subject@;
                let room = less(width, 11);
                let shown = if room > 1 {
                    shortened(subject, room)
                } else {
                    subject
                };
                seq![
                    row2(
                        ("  □ Next: "@, Style::in_tone(Tone::TextMuted)),
                        (shown, Style::in_tone(Tone::TextMuted)),
                    ),
                ]
            },
            None => match opt_text(self.tip) {
                Some(tip) if self.counts.is_streaming || self.turn_started_at is Some => seq![
                    row1("  Tip: "@ + tip, Style::in_tone(Tone::TextMuted)),
                ],
                _ => Seq::empty(),
            },
        }
    }

    fn second_line(&self, width: u16) -> (r: Option<Line>)
        ensures
            match r {
                Some(l) => self.second_rows(width as nat) == seq![l@],
                None => self.second_rows(width as nat) == Seq::<Row>::empty(),
            },
    {
        if let Some(task) = pick_next_open_task(&self.tasks) {
            let room: usize = (width as usize).saturating_sub(11);
            let shown = if room > 1 {
                truncate_str(task.subject.as_str(), room)
            } else {
                task.subject.clone()
            };
            return Some(
                line2(
                    span("  □ Next: ".to_owned(), Style::fg(Tone::TextMuted)),
                    span(shown, Style::fg(Tone::TextMuted)),
                ),
            );
        }
        if self.counts.is_streaming || self.turn_started_at.is_some() {
            if let Some(tip) = &self.tip {
                return Some(line1(cat2("  Tip: ", tip.as_str()), Style::fg(Tone::TextMuted)));
            }
        }
        None
    }
}

/// The rows above the input in an area of that size.
pub open spec fn spinner_rows(view: SpinnerView, width: nat, height: nat, now: Instant) -> Seq<Row> {
    if height == 0 {
        Seq::empty()
    } else if height == 1 {
        seq![view.first_row(now)]
    } else {
        seq![view.first_row(now)] + view.second_rows(width)
    }
}

/// The rows above the input: what the turn is doing, and what comes next.
pub fn spinner_row(view: &SpinnerView, width: u16, height: u16, now: Instant) -> (r: Vec<Line>)
    ensures
        rows(r@) == spinner_rows(*view, width as nat, height as nat, now),
{
    let mut out: Vec<Line> = Vec::new();
    if height == 0 {
        return out;
    }
    let first = view.first_line(now);
    out.push(first);
    assert(rows(out@) =~= seq![first@]);
    if height >= 2 {
        match view.second_line(width) {
            Some(line) => {
                out.push(line);
                assert(rows(out@) =~= seq![first@] + seq![line@]);
            },
            None => {
                assert(rows(out@) =~= seq![first@] + Seq::<Row>::empty());
            },
        }
    }
    out
}

/// While a compaction is going on, the row says so and nothing else.
pub proof fn law_compaction_takes_the_row(view: SpinnerView, now: Instant)
    requires
        view.compacting is Some,
    ensures
        view.first_row(now).len() == 1,
{
}

/// A sweep changes only colours: the text stays the same, whatever the frame.
pub proof fn law_sweeping_keeps_the_text(text: Seq<char>, tick: nat, base: Tone, sweep: Tone, reduced: bool)
    ensures
        row_text(swept(text, tick, base, sweep, reduced)) == text,
{
    let row = swept(text, tick, base, sweep, reduced);
    if reduced {
        assert(row.drop_last() =~= Seq::empty());
        assert(row_text(row.drop_last()) =~= Seq::<char>::empty());
        assert(row_text(row) =~= text);
    } else {
        lemma_swept_prefix(text, row, text.len());
        assert(row.take(text.len() as int) =~= row);
        assert(text.take(text.len() as int) =~= text);
    }
}

proof fn lemma_swept_prefix(text: Seq<char>, row: Row, n: nat)
    requires
        n <= text.len() == row.len(),
        forall|i: int| 0 <= i < row.len() ==> (#[trigger] row[i]).0 == seq![text[i]],
    ensures
        row_text(row.take(n as int)) == text.take(n as int),
    decreases n,
{
    if n > 0 {
        lemma_swept_prefix(text, row, (n - 1) as nat);
        assert(row.take(n as int).drop_last() =~= row.take(n - 1));
        assert(row.take(n as int).last() == row[n - 1]);
        assert(text.take(n as int) =~= text.take(n - 1) + seq![text[n - 1]]);
    } else {
        assert(row_text(row.take(0)) =~= text.take(0));
    }
}

/// An activity is shown with its word, and with its file and the lines that came and
/// went, or with its subject.
pub proof fn law_activities_are_named(a: Activity, tick: nat, reduced: bool)
    ensures
        ({
            let text = row_text(activity_spans(a, tick, reduced));
            &&& has_prefix(text, a.label.word())
            &&& a.file matches Some((path, additions, deletions)) ==> has_text(
                text,
                " "@ + shortened(file_name(path), 48) + " +"@ + decimal(additions) + " -"@ + decimal(deletions),
            )
            &&& a.file is None && a.subject is Some ==> has_suffix(text, " "@ + a.subject->0)
        }),
{
    let word = a.label.word();
    let row = activity_spans(a, tick, reduced);
    let text = row_text(row);
    match a.file {
        Some((path, additions, deletions)) => {
            let head = swept(word, tick, Tone::TextSecondary, Tone::Warning, reduced);
            law_sweeping_keeps_the_text(word, tick, Tone::TextSecondary, Tone::Warning, reduced);
            let name = shortened(file_name(path), 48);
            let end = seq![
                (" "@, Style::plain_style()),
                (name, Style::in_tone(Tone::AccentSecondary)),
                (" "@, Style::plain_style()),
                ("+"@ + decimal(additions), Style::in_tone(Tone::DiffAdded)),
                (" "@, Style::plain_style()),
                ("-"@ + decimal(deletions), Style::in_tone(Tone::DiffRemoved)),
            ];
            lemma_row_text_adds(head, end);
            lemma_six_spans(end);
            reveal_strlit(" ");
            reveal_strlit(" +");
            reveal_strlit(" -");
            reveal_strlit("+");
            reveal_strlit("-");
            let w = " "@ + name + " +"@ + decimal(additions) + " -"@ + decimal(deletions);
            assert(row_text(end) =~= w);
            assert(text.subrange(0, word.len() as int) =~= word);
            lemma_has_itself(w);
            lemma_has_in_sum(word, w, w);
        },
        None => match a.subject {
            Some(subject) => {
                let head = swept(word, tick, Tone::TextSecondary, Tone::Warning, reduced);
                law_sweeping_keeps_the_text(word, tick, Tone::TextSecondary, Tone::Warning, reduced);
                let end = seq![
                    (" "@, Style::plain_style()),
                    (subject, Style::in_tone(Tone::AccentSecondary)),
                ];
                lemma_row_text_adds(head, end);
                assert(end.drop_last().drop_last() =~= Seq::empty());
                assert(row_text(end.drop_last().drop_last()) =~= Seq::<char>::empty());
                assert(row_text(end.drop_last()) =~= " "@);
                assert(row_text(end) =~= " "@ + subject);
                assert(text.subrange(0, word.len() as int) =~= word);
                let w = " "@ + subject;
                assert(text.subrange(text.len() - w.len(), text.len() as int) =~= w);
            },
            None => {
                law_sweeping_keeps_the_text(word + "…"@, tick, Tone::Warning, Tone::TextPrimary, reduced);
                assert(text.subrange(0, word.len() as int) =~= word);
            },
        },
    }
}

proof fn lemma_six_spans(row: Row)
    requires
        row.len() == 6,
    ensures
        row_text(row) == row[0].0 + row[1].0 + row[2].0 + row[3].0 + row[4].0 + row[5].0,
{
    let r1 = seq![row[0]];
    let r2 = r1.push(row[1]);
    let r3 = r2.push(row[2]);
    let r4 = r3.push(row[3]);
    let r5 = r4.push(row[4]);
    let r6 = r5.push(row[5]);
    assert(r1.drop_last() =~= Seq::empty());
    assert(row_text(r1.drop_last()) =~= Seq::<char>::empty());
    assert(row_text(r1) =~= row[0].0);
    assert(r2.drop_last() =~= r1);
    assert(row_text(r2) == row[0].0 + row[1].0);
    assert(r3.drop_last() =~= r2);
    assert(row_text(r3) == row[0].0 + row[1].0 + row[2].0);
    assert(r4.drop_last() =~= r3);
    assert(row_text(r4) == row[0].0 + row[1].0 + row[2].0 + row[3].0);
    assert(r5.drop_last() =~= r4);
    assert(row_text(r5) == row[0].0 + row[1].0 + row[2].0 + row[3].0 + row[4].0);
    assert(r6.drop_last() =~= r5);
    assert(row =~= r6);
}

proof fn lemma_tail_has(rest: Seq<char>, w: Seq<char>)
    requires
        rest.len() > 0,
        !crate::text::is_space(rest[0]),
        has_text(rest, w),
        w.len() > 0,
        !crate::text::is_space(w[0]),
        !crate::text::is_space(w.last()),
    ensures
        has_text(tail_of(" · "@ + rest), w),
{
    reveal_strlit(" · ");
    let body = " · "@ + rest;
    assert(body.subrange(0, 3) =~= " · "@);
    assert(body.skip(3) =~= rest);
    assert(!has_prefix(rest, " · "@)) by {
        if has_prefix(rest, " · "@) {
            assert(rest.subrange(0, 3)[0] == rest[0]);
        }
    }
    assert(without_prefixes(rest, " · "@) == rest);
    assert(without_prefixes(body, " · "@) == rest);
    lemma_trimmed_has(rest, w);
}

proof fn lemma_status_row_shows(glyph: Seq<char>, dim: bool, verb: Row, body: Seq<char>, w: Seq<char>)
    requires
        has_text(tail_of(body), w),
        w.len() > 0,
    ensures
        has_text(row_text(status_row(glyph, dim, verb, body)), w),
{
    let row = status_row(glyph, dim, verb, body);
    let tail = tail_of(body);
    let i = choose|i: int| crate::slicing::occurs_at(tail, w, i);
    assert(tail.len() > 0);
    lemma_has_in_sum(" ("@, tail, w);
    lemma_has_in_sum(" ("@ + tail, ")"@, w);
    lemma_row_has(row, row.len() - 1, w);
}

proof fn lemma_verb_is_shown(glyph: Seq<char>, dim: bool, verb: Row, body: Seq<char>)
    ensures
        has_text(row_text(status_row(glyph, dim, verb, body)), row_text(verb)),
{
    let row = status_row(glyph, dim, verb, body);
    let head = row.take(1);
    let end = row.skip(1int + verb.len());
    assert(row =~= head + verb + end);
    lemma_row_text_adds(head + verb, end);
    lemma_row_text_adds(head, verb);
    lemma_has_in_sum(row_text(head), row_text(verb), row_text(verb));
    lemma_has_in_sum(row_text(head) + row_text(verb), row_text(end), row_text(verb));
}

/// While a request is being retried, the row says why, with the status code where there
/// is one, and which attempt it is.
pub proof fn law_recovery_is_explained(view: SpinnerView, now: Instant)
    requires
        view.compacting is None,
        view.recovery is Some,
    ensures
        has_text(row_text(view.first_row(now)), view.recovery->0.reason@),
        has_text(row_text(view.first_row(now)), "attempt "@ + decimal(view.recovery->0.attempts as nat)),
        view.recovery->0.status_code is Some ==> has_text(
            row_text(view.first_row(now)),
            decimal(view.recovery->0.status_code->0 as nat) + " "@ + view.recovery->0.reason@,
        ),
{
    let r = view.recovery->0;
    let row = view.first_row(now);
    let verb = seq![(recovery_label(r), Style::in_tone(Tone::Warning).made_bold())];
    let body = recovery_body(r, now);
    lemma_verb_is_shown(RECOVERY_GLYPH@, false, verb, body);
    assert(verb.drop_last() =~= Seq::empty());
    assert(row_text(verb.drop_last()) =~= Seq::<char>::empty());
    assert(row_text(verb) =~= recovery_label(r));
    lemma_has_itself(r.reason@);
    if r.status_code is Some {
        let code = decimal(r.status_code->0 as nat);
        lemma_has_in_sum(code + " "@, r.reason@, r.reason@);
    }
    lemma_has_trans(row_text(row), recovery_label(r), r.reason@);
    reveal_strlit(" · retrying ");
    reveal_strlit(" · attempt ");
    reveal_strlit("attempt ");
    reveal_strlit(" · ");
    let n = decimal(r.attempts as nat);
    let w = "attempt "@ + n;
    lemma_decimal_is_digits(r.attempts as nat);
    assert(w.last() == n[n.len() - 1]);
    let rest = body.skip(3);
    assert(body =~= " · "@ + rest);
    let at: int = 9int + r.provider@.len() + 3;
    assert(rest.subrange(at, at + w.len()) =~= w);
    assert(crate::slicing::occurs_at(rest, w, at));
    assert(rest[0] == 'r');
    lemma_tail_has(rest, w);
    lemma_status_row_shows(RECOVERY_GLYPH@, false, verb, body, w);
}

/// Otherwise the row shows how long the turn has taken, and what it does.
pub proof fn law_row_shows_the_time_and_the_work(view: SpinnerView, now: Instant)
    requires
        view.compacting is None,
        view.recovery is None,
    ensures
        has_text(row_text(view.first_row(now)), elapsed_text(view.turn_time(now) / 1_000_000_000)),
        has_text(row_text(view.first_row(now)), row_text(view.verb(now))),
        view.activity() is None ==> row_text(view.verb(now)) == view.label(),
        view.activity() matches Some(a) ==> has_prefix(row_text(view.verb(now)), a.label.word()),
{
    let row = view.first_row(now);
    let dim = view.silence(now) / 1_000_000_000 >= QUIET_DIM_SECS;
    let glyph = frame_glyph(view.frame as nat);
    let body = view.figures(now);
    lemma_verb_is_shown(glyph, dim, view.verb(now), body);
    match view.activity() {
        Some(a) => {
            law_activities_are_named(a, view.frame as nat, view.reduced_motion);
        },
        None => {
            let base = if dim {
                Tone::TextMuted
            } else {
                Tone::Warning
            };
            law_sweeping_keeps_the_text(
                view.label(),
                view.frame as nat,
                base,
                Tone::TextPrimary,
                view.reduced_motion,
            );
        },
    }
    let chips = status_chips(
        view.turn_time(now) / 1_000_000_000,
        view.live_tokens(),
        view.rate(),
        view.silence(now) / 1_000_000_000,
        view.thinking(),
        view.thinking_tokens as nat,
    );
    let time = elapsed_text(view.turn_time(now) / 1_000_000_000);
    assert(chips[0] == time);
    let all = " · "@ + joined(chips, " · "@);
    lemma_elapsed_ends(view.turn_time(now) / 1_000_000_000);
    lemma_first_chip_stays(chips, body.skip(all.len() as int));
    assert(body =~= all + body.skip(all.len() as int));
    lemma_status_row_shows(glyph, dim, view.verb(now), body, time);
}

proof fn lemma_first_chip_stays(chips: Seq<Seq<char>>, more: Seq<char>)
    requires
        chips.len() > 0,
        chips[0].len() > 0,
        '0' <= chips[0][0] <= '9',
        chips[0].last() == 's',
    ensures
        has_text(tail_of(" · "@ + joined(chips, " · "@) + more), chips[0]),
{
    let all = joined(chips, " · "@);
    lemma_joined_has(chips, " · "@, 0);
    lemma_joined_begins(chips, " · "@);
    lemma_has_in_sum(all, more, chips[0]);
    assert((all + more)[0] == chips[0][0]);
    lemma_sum_of_three(" · "@, all, more);
    lemma_tail_has(all + more, chips[0]);
}

proof fn lemma_elapsed_ends(secs: nat)
    ensures
        elapsed_text(secs).len() > 0,
        '0' <= elapsed_text(secs)[0] <= '9',
        elapsed_text(secs).last() == 's',
{
    reveal_strlit("s");
    lemma_decimal_is_digits(secs);
    lemma_decimal_is_digits(secs / 60);
    if secs >= 60 {
        assert(elapsed_text(secs)[0] == decimal(secs / 60)[0]);
    } else {
        assert(elapsed_text(secs)[0] == decimal(secs)[0]);
    }
}

proof fn lemma_joined_begins(parts: Seq<Seq<char>>, sep: Seq<char>)
    requires
        parts.len() > 0,
        parts[0].len() > 0,
    ensures
        joined(parts, sep).len() >= parts[0].len(),
        joined(parts, sep)[0] == parts[0][0],
    decreases parts.len(),
{
    if parts.len() > 1 {
        lemma_joined_begins(parts.drop_last(), sep);
    }
}

/// While a turn waits, the row counts what it waits for; the first thing that it waits
/// for is named, and never an empty count.
pub proof fn law_waiting_is_counted(c: WorkCounts)
    ensures
        c.pending_calls > 0 ==> has_text(waiting_for(c), decimal(c.pending_calls as nat) + " tool call"@),
        c.pending_calls == 0 && c.batches > 0 ==> has_text(
            waiting_for(c),
            decimal(c.batches as nat) + " tool batch"@,
        ),
        c.pending_calls == 0 && c.batches == 0 && c.open_results > 0 ==> has_text(
            waiting_for(c),
            decimal(c.open_results as nat) + " tool result"@,
        ),
        c.pending_calls == 0 && c.batches == 0 && c.open_results == 0 && c.eager_dispatches == 0 && c.alive_agents
            > 0 ==> has_text(waiting_for(c), decimal(c.alive_agents as nat) + " background agent"@),
        c.pending_calls == 0 && c.batches == 0 && c.open_results == 0 && c.eager_dispatches == 0 && c.alive_agents
            == 0 && c.queued_prompts > 0 ==> has_text(
            waiting_for(c),
            decimal(c.queued_prompts as nat) + " queued prompt"@,
        ),
{
    lemma_counted_has("dispatching "@, c.pending_calls as nat, " tool call"@);
    lemma_counted_has("running "@, c.batches as nat, " tool batch"@);
    lemma_counted_has("waiting on "@, c.open_results as nat, " tool result"@);
    lemma_counted_has("tracking "@, c.alive_agents as nat, " background agent"@);
    lemma_counted_has("waiting to drain "@, c.queued_prompts as nat, " queued prompt"@);
}

proof fn lemma_counted_has(before: Seq<char>, count: nat, what: Seq<char>)
    ensures
        has_text(counted(before, count, what), decimal(count) + what),
{
    lemma_middle_has(before, decimal(count), what, plural(count));
}

/// Under the row stands the next task that is open; where there is none, the tip of a
/// running turn.
pub proof fn law_next_task_is_shown_below(view: SpinnerView, width: nat, height: nat, now: Instant)
    requires
        height > 1,
    ensures
        next_open(view.tasks@) matches Some(i) ==> view.tasks@[i].subject@.len() + 11 <= width && width > 12 ==> shows(
            spinner_rows(view, width, height, now),
            view.tasks@[i].subject@,
        ),
        next_open(view.tasks@) is None && view.tip is Some && view.counts.is_streaming ==> shows(
            spinner_rows(view, width, height, now),
            view.tip->0@,
        ),
{
    let rows = spinner_rows(view, width, height, now);
    match next_open(view.tasks@) {
        Some(i) => {
            let subject = view.tasks@[i].subject@;
            if subject.len() + 11 <= width && width > 12 {
                lemma_has_itself(subject);
                lemma_row_has(rows[1], 1, subject);
            }
        },
        None => {
            if view.tip is Some && view.counts.is_streaming {
                lemma_has_in_sum("  Tip: "@, view.tip->0@, view.tip->0@);
                lemma_row_has(rows[1], 0, view.tip->0@);
            }
        },
    }
}

/// A rate is told only of a stream that is live, and is that of its samples.
pub proof fn law_only_live_streams_have_a_rate(v: SpinnerView)
    ensures
        !v.counts.is_streaming ==> v.rate() is None,
        v.counts.is_streaming && token_rate(v.rate_samples@) is Some ==> v.rate() is Some && (token_rate(
            v.rate_samples@,
        )->0 <= u128::MAX ==> v.rate()->0 == token_rate(v.rate_samples@)->0),
        token_rate(v.rate_samples@) is None ==> v.rate() is None,
{
}

} // verus!
