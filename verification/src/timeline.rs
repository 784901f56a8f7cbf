//! The timeline of requests: what each one used, and which look unusual.
//!
//! Usage is counted up over a session. A request's share is the difference to
//! what was counted before it. Money is counted in billionths of a dollar.
use std::collections::VecDeque;

use vstd::arithmetic::power2::pow2;
use vstd::prelude::*;

use crate::doubles::{
    double_of, double_of_u64, doublings, percent_double, percent_of, significand, significand_of, TWO_53,
};
use crate::fractions::{fraction_below, fraction_is_below};
use crate::order::{rank_order, sort_stable, sorted, Ranked};
use crate::slicing::{group_texts, join, joined, opt_text, split_words, texts, words_of};
use crate::text::{cat2, chars_of, text_between};
use crate::transcript::{
    message_model, message_models, part_model, part_models, ChatMessage, MessageModel, MessagePart, PartModel, Role,
};

verus! {

broadcast use group_texts;

/// How many samples are kept.
pub const TIMELINE_CAP: usize = 256;

/// How many requests make up the baseline.
pub const ROLLING_WINDOW: usize = 8;

/// Tokens by which the input must exceed its baseline to be unusual.
pub const INPUT_SPIKE_ABS: u64 = 4_000;

/// The least cost that can be unusual: ten cents.
pub const COST_SPIKE_FLOOR: u64 = 100_000_000;

/// Cache writes above which a request counts as a rewrite of the cache.
pub const CACHE_REWRITE_ABS: u64 = 8_000;

/// The double nearest to 0.85, in units of `2 ^ -53`.
pub const HIGH_WATER: u128 = 7_656_119_366_529_843;

/// What was counted so far.
#[derive(Debug, Clone, Copy, PartialEq, Eq, Structural)]
pub struct TimelineBaseline {
    pub input: u64,
    pub output: u64,
    pub cache_read: u64,
    pub cache_write: u64,
    pub thinking: u64,
    pub cost: u64,
}

impl TimelineBaseline {
    /// Nothing counted.
    pub open spec fn zero() -> TimelineBaseline {
        TimelineBaseline { input: 0, output: 0, cache_read: 0, cache_write: 0, thinking: 0, cost: 0 }
    }
}

impl Default for TimelineBaseline {
    fn default() -> (r: Self)
        ensures
            r == Self::zero(),
    {
        TimelineBaseline { input: 0, output: 0, cache_read: 0, cache_write: 0, thinking: 0, cost: 0 }
    }
}

/// What one model used.
#[derive(Debug, Clone, Copy, PartialEq, Eq, Structural)]
pub struct ModelTotals {
    pub input_tokens: u64,
    pub output_tokens: u64,
    pub cache_read_tokens: u64,
    pub cache_write_tokens: u64,
    pub thinking_tokens: u64,
}

/// The sum, or the largest number.
pub open spec fn sat(a: u64, b: u64) -> u64 {
    if a + b > u64::MAX {
        u64::MAX
    } else {
        (a + b) as u64
    }
}

/// The difference, or nothing.
pub open spec fn gain(now: u64, before: u64) -> u64 {
    if now >= before {
        (now - before) as u64
    } else {
        0
    }
}

/// What all models used.
pub open spec fn counted(usage: Seq<ModelTotals>, cost: u64) -> TimelineBaseline
    decreases usage.len(),
{
    if usage.len() == 0 {
        TimelineBaseline { cost, ..TimelineBaseline::zero() }
    } else {
        let before = counted(usage.drop_last(), cost);
        let u = usage.last();
        TimelineBaseline {
            input: sat(before.input, u.input_tokens),
            output: sat(before.output, u.output_tokens),
            cache_read: sat(before.cache_read, u.cache_read_tokens),
            cache_write: sat(before.cache_write, u.cache_write_tokens),
            thinking: sat(before.thinking, u.thinking_tokens),
            cost,
        }
    }
}

fn count_usage(usage: &[ModelTotals], cost: u64) -> (r: TimelineBaseline)
    ensures
        r == counted(usage@, cost),
{
    let mut now = TimelineBaseline { input: 0, output: 0, cache_read: 0, cache_write: 0, thinking: 0, cost };
    let mut i: usize = 0;
    while i < usage.len()
        invariant
            i <= usage@.len(),
            now == counted(usage@.take(i as int), cost),
        decreases usage@.len() - i,
    {
        assert(usage@.take(i + 1).drop_last() =~= usage@.take(i as int));
        let u = usage[i];
        now = TimelineBaseline {
            input: now.input.saturating_add(u.input_tokens),
            output: now.output.saturating_add(u.output_tokens),
            cache_read: now.cache_read.saturating_add(u.cache_read_tokens),
            cache_write: now.cache_write.saturating_add(u.cache_write_tokens),
            thinking: now.thinking.saturating_add(u.thinking_tokens),
            cost,
        };
        i += 1;
    }
    assert(usage@.take(i as int) =~= usage@);
    now
}

// ── samples ─────────────────────────────────────────────────────────────

/// The cache's share of the input: what was read of it. It is taken in double
/// precision, in percent.
#[derive(Debug, Clone, Copy, PartialEq, Eq, Structural)]
pub struct HitRate {
    pub read: u64,
    pub input: u64,
}

impl HitRate {
    /// The share in percent, at most a hundred, and nothing without input.
    pub open spec fn percent(self) -> (nat, nat) {
        if self.input == 0 {
            (0, 1)
        } else {
            percent_double(double_of(self.read as nat), double_of(self.input as nat))
        }
    }

    fn in_percent(&self) -> (r: (u128, u128))
        ensures
            r.0 == self.percent().0,
            r.1 == self.percent().1,
            0 < r.1 <= 0x100_0000_0000_0000_0000_0000_0000_0000,
            r.0 <= 0x4_0000_0000_0000_0000,
    {
        if self.input == 0 {
            (0, 1)
        } else {
            percent_of(self.read, self.input)
        }
    }
}

/// What one request used.
#[derive(Debug, Clone)]
pub struct TimelineSample {
    pub ts_unix: u64,
    pub model: String,
    pub prompt: Option<String>,
    pub input_delta: u64,
    pub output_delta: u64,
    pub cache_read_delta: u64,
    pub cache_write_delta: u64,
    pub thinking_delta: u64,
    pub cost_delta: u64,
    pub context_used_tokens: u64,
    pub context_window_tokens: u64,
    pub cache_hit: HitRate,
    pub flags: Vec<String>,
    pub rsi_prompt_sections: u64,
    pub rsi_tool_visibility_rules: u64,
}

impl Default for TimelineSample {
    fn default() -> (r: Self)
        ensures
            r.ts_unix == 0,
            r.model@.len() == 0,
            r.prompt is None,
            r.input_delta == 0,
            r.output_delta == 0,
            r.cache_read_delta == 0,
            r.cache_write_delta == 0,
            r.thinking_delta == 0,
            r.cost_delta == 0,
            r.context_used_tokens == 0,
            r.context_window_tokens == 0,
            r.cache_hit == (HitRate { read: 0, input: 0 }),
            r.flags@.len() == 0,
            r.rsi_prompt_sections == 0,
            r.rsi_tool_visibility_rules == 0,
    {
        TimelineSample {
            ts_unix: 0,
            model: String::new(),
            prompt: None,
            input_delta: 0,
            output_delta: 0,
            cache_read_delta: 0,
            cache_write_delta: 0,
            thinking_delta: 0,
            cost_delta: 0,
            context_used_tokens: 0,
            context_window_tokens: 0,
            cache_hit: HitRate { read: 0, input: 0 },
            flags: Vec::new(),
            rsi_prompt_sections: 0,
            rsi_tool_visibility_rules: 0,
        }
    }
}

// ── medians ─────────────────────────────────────────────────────────────

/// A number that is sorted by size.
#[derive(Debug, Clone, Copy)]
pub struct Amount {
    pub n: u64,
}

impl Ranked for Amount {
    open spec fn before(&self, other: &Self) -> bool {
        self.n < other.n
    }

    fn is_before(&self, other: &Self) -> (r: bool) {
        self.n < other.n
    }
}

/// Twice the median; nothing for no values.
pub open spec fn twice_median(values: Seq<Amount>) -> nat {
    let s = sorted(values, rank_order::<Amount>());
    let mid = (values.len() / 2) as int;
    if values.len() == 0 {
        0
    } else if values.len() % 2 == 0 {
        (s[mid - 1].n + s[mid].n) as nat
    } else {
        (2 * s[mid].n) as nat
    }
}

/// Twice the median of the values.
pub fn doubled_median(values: Vec<Amount>) -> (r: u128)
    ensures
        r == twice_median(values@),
{
    let n: usize = values.len();
    if n == 0 {
        return 0;
    }
    let mid: usize = n / 2;
    proof {
        crate::order::law_sorted_is_a_permutation(values@, rank_order::<Amount>());
    }
    let s = sort_stable(values);
    if n % 2 == 0 {
        s[mid - 1].n as u128 + s[mid].n as u128
    } else {
        2 * (s[mid].n as u128)
    }
}

// ── flags ───────────────────────────────────────────────────────────────

/// The most recent samples, the latest first.
pub open spec fn recent_window(recent: Seq<TimelineSample>) -> Seq<TimelineSample> {
    let n = if recent.len() < ROLLING_WINDOW {
        recent.len()
    } else {
        ROLLING_WINDOW as nat
    };
    Seq::new(n, |i: int| recent[recent.len() - 1 - i])
}

/// The context is nearly full: 85 percent and more. The share and the bound are
/// doubles; the one nearest to 0.85 is the fraction named here.
pub open spec fn near_window(s: TimelineSample) -> bool {
    let used = double_of(s.context_used_tokens as nat);
    let window = double_of(s.context_window_tokens as nat);
    s.context_window_tokens > 0 && (used >= window || !fraction_below(
        significand(used, window),
        pow2(doublings(used, window)),
        HIGH_WATER as nat,
        TWO_53 as nat,
    ))
}

fn is_near_window(s: &TimelineSample) -> (r: bool)
    ensures
        r == near_window(*s),
{
    if s.context_window_tokens == 0 {
        return false;
    }
    let used = double_of_u64(s.context_used_tokens);
    let window = double_of_u64(s.context_window_tokens);
    if used >= window {
        return true;
    }
    if used == 0 {
        proof {
            vstd::arithmetic::power2::lemma2_to64();
            assert(significand(used as nat, window as nat) == 0) by {
                assert(0nat / (window as nat) == 0 && 0nat % (window as nat) == 0) by (nonlinear_arith)
                    requires
                        window > 0,
                ;
            }
        }
        return false;
    }
    let (m, p) = significand_of(used, window);
    !fraction_is_below(m, p, HIGH_WATER, TWO_53)
}

/// The request wrote the cache afresh: much more was written than read.
pub open spec fn rewrites_cache(s: TimelineSample) -> bool {
    s.cache_write_delta > CACHE_REWRITE_ABS && s.cache_write_delta > s.cache_read_delta
}

/// The input grew well beyond its median: by half, and by a fixed amount. Counts
/// are compared exactly.
pub open spec fn input_spikes(s: TimelineSample, twice: nat) -> bool {
    twice > 0 && 4 * s.input_delta > 3 * twice && 2 * s.input_delta > twice + 2 * INPUT_SPIKE_ABS
}

/// The cost is more than twice its median, and more than pennies. A rewrite of
/// the cache explains a high cost.
pub open spec fn cost_spikes(s: TimelineSample, twice: nat) -> bool {
    !rewrites_cache(s) && s.cost_delta >= COST_SPIKE_FLOOR && twice > 0 && s.cost_delta > twice
}

/// The cache hits fell by more than twenty points from at least forty. From there
/// on a difference of twenty is exact in double precision.
pub open spec fn cache_drops(s: TimelineSample, prev: TimelineSample) -> bool {
    let before = prev.cache_hit.percent();
    let now = s.cache_hit.percent();
    s.input_delta > 0 && before.0 >= 40 * before.1 && fraction_below(now.0 + 20 * now.1, now.1, before.0, before.1)
}

/// A flag, if the condition holds.
pub open spec fn flag_if(holds: bool, flag: Seq<char>) -> Seq<Seq<char>> {
    if holds {
        seq![flag]
    } else {
        Seq::empty()
    }
}

fn push_flag_if(flags: &mut Vec<String>, holds: bool, flag: &str)
    ensures
        texts(final(flags)@) == texts(old(flags)@) + flag_if(holds, flag@),
{
    if holds {
        flags.push(flag.to_owned());
    }
    assert(texts(flags@) =~= texts(old(flags)@) + flag_if(holds, flag@));
}

/// The inputs of samples.
pub open spec fn inputs_of(samples: Seq<TimelineSample>) -> Seq<Amount> {
    samples.map_values(|s: TimelineSample| Amount { n: s.input_delta })
}

/// The costs of samples.
pub open spec fn costs_of(samples: Seq<TimelineSample>) -> Seq<Amount> {
    samples.map_values(|s: TimelineSample| Amount { n: s.cost_delta })
}

/// What is unusual about a sample, judged against the ones before it.
pub open spec fn flags_for(s: TimelineSample, recent: Seq<TimelineSample>) -> Seq<Seq<char>> {
    let absolute = flag_if(near_window(s), "context_near_window"@) + flag_if(
        rewrites_cache(s),
        "cache_rewrite"@,
    );
    let window = recent_window(recent);
    if window.len() == 0 {
        absolute
    } else {
        absolute + flag_if(input_spikes(s, twice_median(inputs_of(window))), "input_spike"@) + flag_if(
            cost_spikes(s, twice_median(costs_of(window))),
            "cost_spike"@,
        ) + flag_if(cache_drops(s, window[0]), "cache_hit_drop"@)
    }
}

fn is_cache_drop(s: &TimelineSample, prev: &TimelineSample) -> (r: bool)
    ensures
        r == cache_drops(*s, *prev),
{
    let (was, unit) = prev.cache_hit.in_percent();
    let (is, part) = s.cache_hit.in_percent();
    s.input_delta > 0 && was >= 40 * unit && fraction_is_below(is + 20 * part, part, was, unit)
}

/// Flag what is unusual about a sample, judged against the median of the
/// requests before it rather than against one neighbour.
pub fn anomaly_flags(sample: &TimelineSample, recent: &VecDeque<TimelineSample>) -> (r: Vec<String>)
    ensures
        texts(r@) == flags_for(*sample, recent@),
{
    let mut flags: Vec<String> = Vec::new();
    let near = is_near_window(sample);
    push_flag_if(&mut flags, near, "context_near_window");
    let rewrite = sample.cache_write_delta > CACHE_REWRITE_ABS && sample.cache_write_delta
        > sample.cache_read_delta;
    assert(texts(flags@) =~= flag_if(near_window(*sample), "context_near_window"@));
    push_flag_if(&mut flags, rewrite, "cache_rewrite");
    let n: usize = if recent.len() < ROLLING_WINDOW {
        recent.len()
    } else {
        ROLLING_WINDOW
    };
    if n == 0 {
        return flags;
    }
    let ghost window = recent_window(recent@);
    let mut inputs: Vec<Amount> = Vec::new();
    let mut costs: Vec<Amount> = Vec::new();
    let mut i: usize = 0;
    assert(inputs@ =~= inputs_of(window).take(0));
    assert(costs@ =~= costs_of(window).take(0));
    while i < n
        invariant
            i <= n <= recent@.len(),
            window == recent_window(recent@),
            window.len() == n,
            inputs@ == inputs_of(window).take(i as int),
            costs@ == costs_of(window).take(i as int),
        decreases n - i,
    {
        let s = &recent[recent.len() - 1 - i];
        inputs.push(Amount { n: s.input_delta });
        costs.push(Amount { n: s.cost_delta });
        assert(inputs@ =~= inputs_of(window).take(i + 1));
        assert(costs@ =~= costs_of(window).take(i + 1));
        i += 1;
    }
    assert(inputs_of(window).take(i as int) =~= inputs_of(window));
    assert(costs_of(window).take(i as int) =~= costs_of(window));
    let twice_input: u128 = doubled_median(inputs);
    let twice_cost: u128 = doubled_median(costs);
    proof {
        lemma_twice_median_bound(inputs@);
    }
    let input = sample.input_delta as u128;
    let input_spike = twice_input > 0 && 4 * input > 3 * twice_input && 2 * input > twice_input + 2
        * INPUT_SPIKE_ABS as u128;
    push_flag_if(&mut flags, input_spike, "input_spike");
    let cost_spike = !rewrite && sample.cost_delta >= COST_SPIKE_FLOOR && twice_cost > 0
        && sample.cost_delta as u128 > twice_cost;
    push_flag_if(&mut flags, cost_spike, "cost_spike");
    let drop = is_cache_drop(sample, &recent[recent.len() - 1]);
    push_flag_if(&mut flags, drop, "cache_hit_drop");
    flags
}

proof fn lemma_twice_median_bound(values: Seq<Amount>)
    ensures
        twice_median(values) <= 2 * u64::MAX,
{
}

/// A request that rewrites the cache is never flagged for its cost.
pub proof fn law_cache_rewrite_explains_the_cost(s: TimelineSample, recent: Seq<TimelineSample>)
    requires
        rewrites_cache(s),
    ensures
        !cost_spikes(s, twice_median(costs_of(recent_window(recent)))),
{
}

/// The first request has nothing to be compared with: only what is absolute is
/// flagged.
pub proof fn law_first_request_has_no_baseline(s: TimelineSample)
    ensures
        flags_for(s, Seq::empty()) == flag_if(near_window(s), "context_near_window"@) + flag_if(
            rewrites_cache(s),
            "cache_rewrite"@,
        ),
{
}

// ── the prompt ──────────────────────────────────────────────────────────

/// The text parts of a message.
pub open spec fn text_parts(parts: Seq<PartModel>) -> Seq<Seq<char>>
    decreases parts.len(),
{
    if parts.len() == 0 {
        Seq::empty()
    } else {
        match parts.last() {
            PartModel::Text(t) => text_parts(parts.drop_last()).push(t),
            _ => text_parts(parts.drop_last()),
        }
    }
}

/// The last message of the user among the first `n`.
pub open spec fn last_user(msgs: Seq<MessageModel>, n: nat) -> Option<MessageModel>
    decreases n,
{
    if n == 0 {
        None
    } else if msgs[n - 1].role == Role::User {
        Some(msgs[n - 1])
    } else {
        last_user(msgs, (n - 1) as nat)
    }
}

/// A text of at most `max` characters and a mark.
pub open spec fn clipped(text: Seq<char>, max: nat) -> Seq<char> {
    if text.len() <= max {
        text
    } else {
        text.take(max as int) + "…"@
    }
}

/// The prompt that is being answered, on one line.
pub open spec fn current_prompt(msgs: Seq<MessageModel>) -> Option<Seq<char>> {
    match last_user(msgs, msgs.len()) {
        None => None,
        Some(m) => {
            let line = joined(words_of(joined(text_parts(m.parts), " "@)), " "@);
            if line.len() == 0 {
                None
            } else {
                Some(clipped(line, 140))
            }
        },
    }
}

fn truncate(text: &str, max_chars: usize) -> (r: String)
    ensures
        r@ == clipped(text@, max_chars as nat),
{
    let cs = chars_of(text);
    if cs.len() <= max_chars {
        return text.to_owned();
    }
    let head = text_between(&cs, 0, max_chars);
    assert(cs@.subrange(0, max_chars as int) =~= text@.take(max_chars as int));
    cat2(head.as_str(), "…")
}

fn texts_of_parts(parts: &Vec<MessagePart>) -> (r: Vec<String>)
    ensures
        texts(r@) == text_parts(part_models(parts@)),
{
    let ghost all = part_models(parts@);
    let mut out: Vec<String> = Vec::new();
    let mut i: usize = 0;
    assert(texts(out@) =~= text_parts(all.take(0)));
    while i < parts.len()
        invariant
            i <= parts@.len(),
            all == part_models(parts@),
            texts(out@) == text_parts(all.take(i as int)),
        decreases parts@.len() - i,
    {
        assert(all.take(i + 1).drop_last() =~= all.take(i as int));
        assert(all.take(i + 1).last() == part_model(parts@[i as int]));
        if let MessagePart::Text(t) = &parts[i] {
            out.push(t.clone());
        }
        i += 1;
    }
    assert(all.take(i as int) =~= all);
    out
}

/// The prompt that is being answered: the text of the last message of the user,
/// on one line.
pub fn last_user_prompt(messages: &[ChatMessage]) -> (r: Option<String>)
    ensures
        opt_text(r) == current_prompt(message_models(messages@)),
{
    let ghost all = message_models(messages@);
    let mut n: usize = messages.len();
    while n > 0
        invariant
            n <= messages@.len(),
            all == message_models(messages@),
            last_user(all, all.len()) == last_user(all, n as nat),
        decreases n,
    {
        assert(all[n - 1] == message_model(messages@[n - 1]));
        if messages[n - 1].role == Role::User {
            let parts = texts_of_parts(&messages[n - 1].parts);
            let words = split_words(join(&parts, " ").as_str());
            let line = join(&words, " ");
            return if line.as_str().is_empty() {
                None
            } else {
                Some(truncate(line.as_str(), 140))
            };
        }
        n -= 1;
    }
    None
}

// ── recording ───────────────────────────────────────────────────────────

/// The part of the application that keeps the timeline.
#[derive(Debug)]
pub struct App {
    pub timeline: VecDeque<TimelineSample>,
    pub timeline_baseline: TimelineBaseline,
}

/// What is known of the request that just ended.
#[derive(Debug)]
pub struct RequestFacts {
    pub ts_unix: u64,
    pub model: String,
    pub prompt: Option<String>,
    pub context_used_tokens: u64,
    pub context_window_tokens: u64,
    pub rsi_prompt_sections: u64,
    pub rsi_tool_visibility_rules: u64,
}

/// The request did nothing that can be measured.
pub open spec fn is_idle(now: TimelineBaseline, base: TimelineBaseline) -> bool {
    gain(now.input, base.input) == 0 && gain(now.output, base.output) == 0 && gain(now.cost, base.cost) == 0
}

/// The sample says what the request used since `base`.
pub open spec fn is_sample_of(s: TimelineSample, now: TimelineBaseline, base: TimelineBaseline, facts: RequestFacts) -> bool {
    &&& s.ts_unix == facts.ts_unix
    &&& s.model == facts.model
    &&& s.prompt == facts.prompt
    &&& s.input_delta == gain(now.input, base.input)
    &&& s.output_delta == gain(now.output, base.output)
    &&& s.cache_read_delta == gain(now.cache_read, base.cache_read)
    &&& s.cache_write_delta == gain(now.cache_write, base.cache_write)
    &&& s.thinking_delta == gain(now.thinking, base.thinking)
    &&& s.cost_delta == gain(now.cost, base.cost)
    &&& s.context_used_tokens == facts.context_used_tokens
    &&& s.context_window_tokens == facts.context_window_tokens
    &&& s.cache_hit == (HitRate { read: s.cache_read_delta, input: s.input_delta })
    &&& s.rsi_prompt_sections == facts.rsi_prompt_sections
    &&& s.rsi_tool_visibility_rules == facts.rsi_tool_visibility_rules
}

/// The samples that stay when one more comes.
pub open spec fn kept_samples(timeline: Seq<TimelineSample>) -> Seq<TimelineSample> {
    if timeline.len() >= TIMELINE_CAP {
        timeline.skip(1)
    } else {
        timeline
    }
}

/// What is known when a request ends.
#[derive(Debug)]
pub struct FinishedRequest {
    pub usage: Vec<ModelTotals>,
    pub total_cost: u64,
    pub facts: RequestFacts,
}

/// A request was recorded: the baseline moved on, and one sample came in where
/// the request used something.
pub open spec fn is_recorded(
    after: App,
    before: App,
    usage: Seq<ModelTotals>,
    total_cost: u64,
    facts: RequestFacts,
) -> bool {
    let now = counted(usage, total_cost);
    &&& after.timeline_baseline == now
    &&& is_idle(now, before.timeline_baseline) ==> after.timeline@ == before.timeline@
    &&& !is_idle(now, before.timeline_baseline) ==> {
        &&& after.timeline@.len() > 0
        &&& after.timeline@.drop_last() == kept_samples(before.timeline@)
        &&& is_sample_of(after.timeline@.last(), now, before.timeline_baseline, facts)
        &&& texts(after.timeline@.last().flags@) == flags_for(after.timeline@.last(), before.timeline@)
    }
}

impl App {
    /// Nothing is remembered.
    pub open spec fn is_fresh(self) -> bool {
        self.timeline@.len() == 0 && self.timeline_baseline == TimelineBaseline::zero()
    }

    /// Record the request that just ended. One that used nothing leaves no
    /// sample; the baseline moves on in any case.
    pub fn record_timeline_sample(&mut self, usage: &[ModelTotals], total_cost: u64, facts: RequestFacts)
        ensures
            is_recorded(*final(self), *old(self), usage@, total_cost, facts),
    {
        let now = count_usage(usage, total_cost);
        let base = self.timeline_baseline;
        let input_delta: u64 = now.input.saturating_sub(base.input);
        let output_delta: u64 = now.output.saturating_sub(base.output);
        let cost_delta: u64 = now.cost.saturating_sub(base.cost);
        if input_delta == 0 && output_delta == 0 && cost_delta == 0 {
            self.timeline_baseline = now;
            return;
        }
        let cache_read_delta: u64 = now.cache_read.saturating_sub(base.cache_read);
        let mut sample = TimelineSample {
            ts_unix: facts.ts_unix,
            model: facts.model,
            prompt: facts.prompt,
            input_delta,
            output_delta,
            cache_read_delta,
            cache_write_delta: now.cache_write.saturating_sub(base.cache_write),
            thinking_delta: now.thinking.saturating_sub(base.thinking),
            cost_delta,
            context_used_tokens: facts.context_used_tokens,
            context_window_tokens: facts.context_window_tokens,
            cache_hit: HitRate { read: cache_read_delta, input: input_delta },
            flags: Vec::new(),
            rsi_prompt_sections: facts.rsi_prompt_sections,
            rsi_tool_visibility_rules: facts.rsi_tool_visibility_rules,
        };
        sample.flags = anomaly_flags(&sample, &self.timeline);
        if self.timeline.len() >= TIMELINE_CAP {
            let _ = self.timeline.pop_front();
        }
        self.timeline.push_back(sample);
        self.timeline_baseline = now;
        assert(self.timeline@.drop_last() =~= kept_samples(old(self).timeline@));
    }

    /// Forget everything: after a switch of sessions the next request would
    /// otherwise look enormous.
    pub fn reset_timeline(&mut self)
        ensures
            final(self).is_fresh(),
    {
        self.timeline.clear();
        self.timeline_baseline = TimelineBaseline::default();
    }
}

/// A finished request is recorded exactly once: with new usage one sample comes
/// in, and the same usage again brings none.
pub proof fn law_requests_are_recorded_once(
    before: App,
    first: App,
    second: App,
    usage: Seq<ModelTotals>,
    total_cost: u64,
    facts: RequestFacts,
    again: RequestFacts,
)
    requires
        is_recorded(first, before, usage, total_cost, facts),
        is_recorded(second, first, usage, total_cost, again),
        !is_idle(counted(usage, total_cost), before.timeline_baseline),
    ensures
        first.timeline@.len() == kept_samples(before.timeline@).len() + 1,
        first.timeline@.drop_last() == kept_samples(before.timeline@),
        second.timeline@ == first.timeline@,
        second.timeline_baseline == first.timeline_baseline,
{
}

/// The timeline never outgrows its bound.
pub proof fn law_timeline_is_bounded(timeline: Seq<TimelineSample>, s: TimelineSample)
    requires
        timeline.len() <= TIMELINE_CAP,
    ensures
        kept_samples(timeline).push(s).len() <= TIMELINE_CAP,
{
}

/// Usage is attributed once: what two requests in a row add is what was counted
/// between the first baseline and the last count.
pub proof fn law_usage_is_attributed_once(a: TimelineBaseline, b: TimelineBaseline, c: TimelineBaseline)
    requires
        a.input <= b.input <= c.input,
        a.output <= b.output <= c.output,
        a.cost <= b.cost <= c.cost,
    ensures
        gain(b.input, a.input) + gain(c.input, b.input) == gain(c.input, a.input),
        gain(b.output, a.output) + gain(c.output, b.output) == gain(c.output, a.output),
        gain(b.cost, a.cost) + gain(c.cost, b.cost) == gain(c.cost, a.cost),
{
}

/// Only the latest requests make up the baseline: whatever came before the last
/// few changes no flag.
pub proof fn law_old_requests_do_not_count(s: TimelineSample, older: Seq<TimelineSample>, recent: Seq<TimelineSample>)
    requires
        recent.len() >= 8,
    ensures
        flags_for(s, older + recent) == flags_for(s, recent),
        flags_for(s, recent) == flags_for(s, recent.skip(recent.len() - 8)),
{
    let all = older + recent;
    assert(recent_window(all) =~= recent_window(recent));
    assert(recent_window(recent) =~= recent_window(recent.skip(recent.len() - 8)));
}

/// A list of flags holds the flag.
pub open spec fn is_flagged(flags: Seq<Seq<char>>, flag: Seq<char>) -> bool {
    flags.contains(flag)
}

proof fn lemma_flag_names_differ()
    ensures
        "context_near_window"@ != "cache_rewrite"@,
        "context_near_window"@ != "input_spike"@,
        "context_near_window"@ != "cost_spike"@,
        "context_near_window"@ != "cache_hit_drop"@,
        "cache_rewrite"@ != "input_spike"@,
        "cache_rewrite"@ != "cost_spike"@,
        "cache_rewrite"@ != "cache_hit_drop"@,
        "input_spike"@ != "cost_spike"@,
        "input_spike"@ != "cache_hit_drop"@,
        "cost_spike"@ != "cache_hit_drop"@,
{
    reveal_strlit("context_near_window");
    reveal_strlit("cache_rewrite");
    reveal_strlit("input_spike");
    reveal_strlit("cost_spike");
    reveal_strlit("cache_hit_drop");
    assert("context_near_window"@[1] == 'o');
    assert("cache_rewrite"@[1] == 'a');
    assert("cache_rewrite"@[6] == 'r');
    assert("input_spike"@[0] == 'i');
    assert("cost_spike"@[1] == 'o');
    assert("cost_spike"@.len() == 10);
    assert("context_near_window"@.len() == 19);
    assert("cache_hit_drop"@[6] == 'h');
    assert("cache_hit_drop"@[1] == 'a');
    assert("cache_hit_drop"@[0] == 'c');
}

proof fn lemma_flags(s: TimelineSample, recent: Seq<TimelineSample>)
    ensures
        is_flagged(flags_for(s, recent), "context_near_window"@) == near_window(s),
        is_flagged(flags_for(s, recent), "cache_rewrite"@) == rewrites_cache(s),
        is_flagged(flags_for(s, recent), "input_spike"@) == (recent.len() > 0 && input_spikes(
            s,
            twice_median(inputs_of(recent_window(recent))),
        )),
        is_flagged(flags_for(s, recent), "cost_spike"@) == (recent.len() > 0 && cost_spikes(
            s,
            twice_median(costs_of(recent_window(recent))),
        )),
        is_flagged(flags_for(s, recent), "cache_hit_drop"@) == (recent.len() > 0 && cache_drops(s, recent.last())),
{
    lemma_flag_names_differ();
    let f = flags_for(s, recent);
    let (a, b, c, d, e) = (
        "context_near_window"@,
        "cache_rewrite"@,
        "input_spike"@,
        "cost_spike"@,
        "cache_hit_drop"@,
    );
    let window = recent_window(recent);
    let (fa, fb) = (flag_if(near_window(s), a), flag_if(rewrites_cache(s), b));
    let (fc, fd, fe) = if recent.len() == 0 {
        (Seq::<Seq<char>>::empty(), Seq::<Seq<char>>::empty(), Seq::<Seq<char>>::empty())
    } else {
        (
            flag_if(input_spikes(s, twice_median(inputs_of(window))), c),
            flag_if(cost_spikes(s, twice_median(costs_of(window))), d),
            flag_if(cache_drops(s, window[0]), e),
        )
    };
    assert(f =~= fa + fb + fc + fd + fe);
    assert forall|x: Seq<char>|
        f.contains(x) == (fa.contains(x) || fb.contains(x) || fc.contains(x) || fd.contains(x) || fe.contains(x)) by {
        lemma_contains_sum(fa, fb, x);
        lemma_contains_sum(fa + fb, fc, x);
        lemma_contains_sum(fa + fb + fc, fd, x);
        lemma_contains_sum(fa + fb + fc + fd, fe, x);
    }
    lemma_flag_if(near_window(s), a);
    lemma_flag_if(rewrites_cache(s), b);
    if recent.len() > 0 {
        assert(window.len() > 0);
        assert(window[0] == recent.last());
        lemma_flag_if(input_spikes(s, twice_median(inputs_of(window))), c);
        lemma_flag_if(cost_spikes(s, twice_median(costs_of(window))), d);
        lemma_flag_if(cache_drops(s, window[0]), e);
    }
}

proof fn lemma_contains_sum(a: Seq<Seq<char>>, b: Seq<Seq<char>>, x: Seq<char>)
    ensures
        (a + b).contains(x) == (a.contains(x) || b.contains(x)),
{
    if a.contains(x) {
        let i = choose|i: int| 0 <= i < a.len() && a[i] == x;
        assert((a + b)[i] == x);
    }
    if b.contains(x) {
        let i = choose|i: int| 0 <= i < b.len() && b[i] == x;
        assert((a + b)[a.len() + i] == x);
    }
    if (a + b).contains(x) {
        let i = choose|i: int| 0 <= i < (a + b).len() && (a + b)[i] == x;
        if i < a.len() {
            assert(a[i] == x);
        } else {
            assert(b[i - a.len()] == x);
        }
    }
}

proof fn lemma_flag_if(holds: bool, flag: Seq<char>)
    ensures
        forall|x: Seq<char>| #[trigger] flag_if(holds, flag).contains(x) == (holds && x == flag),
{
    if holds {
        assert(flag_if(holds, flag)[0] == flag);
    }
}

/// A fall of the cache hits is one against the request just before: the flag is
/// the same against that request alone, and it takes more hits there than now.
pub proof fn law_cache_hits_are_compared_with_the_last(s: TimelineSample, recent: Seq<TimelineSample>)
    requires
        recent.len() > 0,
    ensures
        is_flagged(flags_for(s, recent), "cache_hit_drop"@) == is_flagged(
            flags_for(s, seq![recent.last()]),
            "cache_hit_drop"@,
        ),
        is_flagged(flags_for(s, recent), "cache_hit_drop"@) ==> s.input_delta > 0 && fraction_below(
            s.cache_hit.percent().0,
            s.cache_hit.percent().1,
            recent.last().cache_hit.percent().0,
            recent.last().cache_hit.percent().1,
        ),
{
    lemma_flags(s, recent);
    lemma_flags(s, seq![recent.last()]);
    if cache_drops(s, recent.last()) {
        let (now, before) = (s.cache_hit.percent(), recent.last().cache_hit.percent());
        assert(now.0 * before.1 < before.0 * now.1) by (nonlinear_arith)
            requires
                (now.0 + 20 * now.1) * before.1 < before.0 * now.1,
        ;
    }
}

/// A request like all the latest ones is no spike, whatever they used.
pub proof fn law_steady_use_is_no_spike(s: TimelineSample, recent: Seq<TimelineSample>, n: int)
    requires
        recent.len() > 0,
        n == (if recent.len() < 8 {
            recent.len() as int
        } else {
            8
        }),
        forall|i: int|
            recent.len() - n <= i < recent.len() ==> (#[trigger] recent[i]).input_delta == s.input_delta
                && recent[i].cost_delta == s.cost_delta && recent[i].cache_hit == s.cache_hit,
    ensures
        !is_flagged(flags_for(s, recent), "input_spike"@),
        !is_flagged(flags_for(s, recent), "cost_spike"@),
        !is_flagged(flags_for(s, recent), "cache_hit_drop"@),
{
    lemma_flags(s, recent);
    let window = recent_window(recent);
    assert forall|i: int| 0 <= i < window.len() implies inputs_of(window)[i] == (Amount { n: s.input_delta })
        && costs_of(window)[i] == (Amount { n: s.cost_delta }) by {
        assert(window[i] == recent[recent.len() - 1 - i]);
    }
    lemma_median_of_equals(inputs_of(window), s.input_delta);
    lemma_median_of_equals(costs_of(window), s.cost_delta);
    assert(recent[recent.len() - 1].cache_hit == s.cache_hit);
    let p = s.cache_hit.percent();
    assert((p.0 + 20 * p.1) * p.1 >= p.0 * p.1) by (nonlinear_arith)
        requires
            p.0 >= 0,
            p.1 >= 0,
    ;
}

proof fn lemma_median_of_equals(values: Seq<Amount>, n: u64)
    requires
        values.len() > 0,
        forall|i: int| 0 <= i < values.len() ==> #[trigger] values[i] == (Amount { n }),
    ensures
        twice_median(values) == 2 * n,
{
    let s = sorted(values, rank_order::<Amount>());
    crate::order::law_sorted_is_a_permutation(values, rank_order::<Amount>());
    assert forall|i: int| 0 <= i < s.len() implies #[trigger] s[i] == (Amount { n }) by {
        vstd::seq_lib::to_multiset_contains(s, s[i]);
        assert(s.contains(s[i]));
        assert(values.to_multiset().count(s[i]) > 0);
        vstd::seq_lib::to_multiset_contains(values, s[i]);
        let k = choose|k: int| 0 <= k < values.len() && values[k] == s[i];
        assert(values[k] == (Amount { n }));
    }
}

/// A request that needs far more input than the one request before it is a spike,
/// and one that costs far more is too, unless it wrote the cache afresh.
pub proof fn law_sudden_use_is_a_spike(s: TimelineSample, before: TimelineSample)
    ensures
        before.input_delta > 0 && s.input_delta > 2 * before.input_delta + 4_000 ==> is_flagged(
            flags_for(s, seq![before]),
            "input_spike"@,
        ),
        before.cost_delta > 0 && s.cost_delta > 2 * before.cost_delta && s.cost_delta >= 100_000_000
            && s.cache_write_delta <= 8_000 ==> is_flagged(flags_for(s, seq![before]), "cost_spike"@),
        s.input_delta <= before.input_delta + 4_000 ==> !is_flagged(flags_for(s, seq![before]), "input_spike"@),
        s.cost_delta < 100_000_000 || s.cost_delta <= 2 * before.cost_delta ==> !is_flagged(
            flags_for(s, seq![before]),
            "cost_spike"@,
        ),
        s.cache_write_delta > 8_000 && s.cache_write_delta > s.cache_read_delta <==> is_flagged(
            flags_for(s, seq![before]),
            "cache_rewrite"@,
        ),
{
    lemma_flags(s, seq![before]);
    let window = recent_window(seq![before]);
    assert(window =~= seq![before]);
    lemma_median_of_equals(inputs_of(window), before.input_delta);
    lemma_median_of_equals(costs_of(window), before.cost_delta);
}

/// Whether the context is nearly full does not depend on other requests, and where
/// it is, more of the same is full too.
pub proof fn law_context_pressure_stands_alone(
    s: TimelineSample,
    recent: Seq<TimelineSample>,
    other: Seq<TimelineSample>,
)
    ensures
        is_flagged(flags_for(s, recent), "context_near_window"@) == is_flagged(
            flags_for(s, other),
            "context_near_window"@,
        ),
        s.context_window_tokens > 0 && s.context_used_tokens == s.context_window_tokens ==> is_flagged(
            flags_for(s, recent),
            "context_near_window"@,
        ),
        s.context_window_tokens == 0 ==> !is_flagged(flags_for(s, recent), "context_near_window"@),
{
    lemma_flags(s, recent);
    lemma_flags(s, other);
}

/// The prompt of a request is what the user said last: a new one takes its place, and
/// what the assistant says does not change it.
pub proof fn law_the_latest_prompt_is_current(msgs: Seq<MessageModel>, m: MessageModel)
    ensures
        m.role == Role::Assistant ==> current_prompt(msgs.push(m)) == current_prompt(msgs),
        m.role == Role::User ==> current_prompt(msgs.push(m)) == current_prompt(seq![m]),
{
    let all = msgs.push(m);
    lemma_last_user_of_front(msgs, m, msgs.len());
    assert(all[all.len() - 1] == m);
    assert(seq![m][0] == m);
    assert(last_user(seq![m], 1) == if m.role == Role::User {
        Some(m)
    } else {
        last_user(seq![m], 0)
    });
}

proof fn lemma_last_user_of_front(msgs: Seq<MessageModel>, m: MessageModel, n: nat)
    requires
        n <= msgs.len(),
    ensures
        last_user(msgs.push(m), n) == last_user(msgs, n),
    decreases n,
{
    if n > 0 {
        assert(msgs.push(m)[n - 1] == msgs[n - 1]);
        lemma_last_user_of_front(msgs, m, (n - 1) as nat);
    }
}

/// What each model used is added to the whole, kind by kind, as far as a sum can be held,
/// and the cost is that of the session.
pub proof fn law_every_model_adds_to_the_use(usage: Seq<ModelTotals>, u: ModelTotals, cost: u64)
    ensures
        ({
            let before = counted(usage, cost);
            let after = counted(usage.push(u), cost);
            &&& before.input + u.input_tokens <= u64::MAX ==> after.input == before.input + u.input_tokens
            &&& before.output + u.output_tokens <= u64::MAX ==> after.output == before.output + u.output_tokens
            &&& before.cache_read + u.cache_read_tokens <= u64::MAX ==> after.cache_read == before.cache_read
                + u.cache_read_tokens
            &&& before.cache_write + u.cache_write_tokens <= u64::MAX ==> after.cache_write == before.cache_write
                + u.cache_write_tokens
            &&& before.thinking + u.thinking_tokens <= u64::MAX ==> after.thinking == before.thinking
                + u.thinking_tokens
            &&& after.cost == cost
        }),
        counted(Seq::empty(), cost).input == 0 && counted(Seq::empty(), cost).output == 0,
{
    assert(usage.push(u).drop_last() =~= usage);
}

/// What was used since is what was added to what had been used.
pub proof fn law_use_since_is_what_was_added(before: u64, added: u64, now: u64)
    ensures
        before + added <= u64::MAX ==> gain(sat(before, added), before) == added,
        now < before ==> gain(now, before) == 0,
{
}

/// Input is a spike exactly where it exceeds the median by more than half and by more
/// than four thousand tokens.
pub proof fn law_spikes_stand_out_from_the_median(s: TimelineSample, median: nat)
    ensures
        input_spikes(s, 2 * median) == (median > 0 && 2 * s.input_delta > 3 * median && s.input_delta > median + 4_000),
{
}

} // verus!
