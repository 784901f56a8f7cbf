//! Asking the model for a response: what is done after each step of a request,
//! and what is done about a failure.
//!
//! The requests themselves are made outside. What comes back of one is handed
//! in as an event; what is to be done next comes out as actions.
use vstd::prelude::*;

use crate::numbers::{number_in, parse_number};
use crate::slicing::{contains, has_text, occurs_at, opt_text};
use crate::text::{
    all_ascii, ascii_lower, ascii_lowered, cat2, cat3, char_count, chars_of, count_text, decimal, decimal_text, in_ascii,
    lowercase, same_text, to_lowercase,
};
use crate::time::Duration;

verus! {

// ── settings ────────────────────────────────────────────────────────────

/// How long opening a stream may take, in seconds; nothing for as long as it
/// takes.
pub open spec fn open_timeout(setting: Option<Seq<char>>) -> Option<nat> {
    match setting {
        None => Some(45),
        Some(raw) => if raw == "0"@ || raw == "off"@ || raw == "false"@ || raw == "disabled"@ {
            None
        } else {
            match number_in(raw, u64::MAX as nat) {
                Some(secs) => if secs > 0 {
                    Some(secs)
                } else {
                    None
                },
                None => None,
            }
        },
    }
}

/// How long opening a stream may take, given the user's setting.
pub fn stream_open_timeout(setting: &Option<String>) -> (r: Option<Duration>)
    ensures
        match r {
            Some(d) => open_timeout(opt_text(*setting)) is Some && d@ == open_timeout(opt_text(*setting))->0
                * 1_000_000_000,
            None => open_timeout(opt_text(*setting)) is None,
        },
{
    match setting {
        None => Some(Duration::from_secs(45)),
        Some(raw) => {
            let raw = raw.as_str();
            if same_text(raw, "0") || same_text(raw, "off") || same_text(raw, "false") || same_text(
                raw,
                "disabled",
            ) {
                return None;
            }
            match parse_number(raw, u64::MAX) {
                Some(secs) => if secs > 0 {
                    Some(Duration::from_secs(secs))
                } else {
                    None
                },
                None => None,
            }
        },
    }
}

/// A failed stream may be made up for by a plain completion. Switching that off
/// wins over switching it on; it is on by default.
pub open spec fn fallback_is_on(disable: Option<Seq<char>>, enable: Option<Seq<char>>) -> bool {
    let off = match disable {
        Some(v) => v == "1"@ || v == "true"@ || v == "yes"@ || v == "on"@,
        None => false,
    };
    let refused = match enable {
        Some(v) => v == "0"@ || v == "false"@ || v == "no"@ || v == "off"@,
        None => false,
    };
    !off && !refused
}

/// Whether a failed stream may be made up for by a plain completion, given the
/// user's two settings.
pub fn stream_to_nonstreaming_fallback_enabled(disable: &Option<String>, enable: &Option<String>) -> (r: bool)
    ensures
        r == fallback_is_on(opt_text(*disable), opt_text(*enable)),
{
    let off = match disable {
        Some(v) => same_text(v.as_str(), "1") || same_text(v.as_str(), "true") || same_text(
            v.as_str(),
            "yes",
        ) || same_text(v.as_str(), "on"),
        None => false,
    };
    if off {
        return false;
    }
    match enable {
        Some(v) => !(same_text(v.as_str(), "0") || same_text(v.as_str(), "false") || same_text(
            v.as_str(),
            "no",
        ) || same_text(v.as_str(), "off")),
        None => true,
    }
}

// ── failures ────────────────────────────────────────────────────────────

fn lower_char(c: char) -> (r: char)
    ensures
        r == ascii_lower(c),
{
    match c {
        'A' => 'a',
        'B' => 'b',
        'C' => 'c',
        'D' => 'd',
        'E' => 'e',
        'F' => 'f',
        'G' => 'g',
        'H' => 'h',
        'I' => 'i',
        'J' => 'j',
        'K' => 'k',
        'L' => 'l',
        'M' => 'm',
        'N' => 'n',
        'O' => 'o',
        'P' => 'p',
        'Q' => 'q',
        'R' => 'r',
        'S' => 's',
        'T' => 't',
        'U' => 'u',
        'V' => 'v',
        'W' => 'w',
        'X' => 'x',
        'Y' => 'y',
        'Z' => 'z',
        _ => c,
    }
}

fn to_ascii_lowercase(s: &str) -> (r: String)
    ensures
        r@ == ascii_lowered(s@),
{
    let cs = chars_of(s);
    let mut out = String::new();
    let mut i: usize = 0;
    assert(out@ =~= ascii_lowered(s@).take(0));
    while i < cs.len()
        invariant
            i <= cs@.len(),
            cs@ == s@,
            out@ == ascii_lowered(s@).take(i as int),
        decreases cs@.len() - i,
    {
        out.push(lower_char(cs[i]));
        assert(ascii_lowered(s@).take(i + 1) =~= ascii_lowered(s@).take(i as int).push(
            ascii_lowered(s@)[i as int],
        ));
        i += 1;
    }
    assert(ascii_lowered(s@).take(i as int) =~= ascii_lowered(s@));
    out
}

/// The error says that the stream died away, rather than that the request was
/// refused.
pub open spec fn is_stale(lower: Seq<char>) -> bool {
    has_text(lower, "stream timed out"@) || has_text(lower, "stream open timed out"@) || has_text(
        lower,
        "before first event"@,
    ) || has_text(lower, "before first byte"@) || has_text(lower, "first provider response"@) || has_text(
        lower,
        "first sse"@,
    ) || has_text(lower, "idle"@) || has_text(lower, "stalled"@) || has_text(lower, "connection closed"@)
        || has_text(lower, "unexpected eof"@) || has_text(lower, "incomplete"@) || has_text(
        lower,
        "broken pipe"@,
    ) || has_text(lower, "connection reset"@) || has_text(lower, "body error"@) || has_text(
        lower,
        "decode"@,
    )
}

/// Whether the error says that the stream died away.
pub fn error_looks_stream_stale_or_idle(error: &str) -> (r: bool)
    ensures
        r == is_stale(ascii_lowered(error@)),
{
    let lower = to_ascii_lowercase(error);
    let l = lower.as_str();
    contains(l, "stream timed out") || contains(l, "stream open timed out") || contains(
        l,
        "before first event",
    ) || contains(l, "before first byte") || contains(l, "first provider response") || contains(
        l,
        "first sse",
    ) || contains(l, "idle") || contains(l, "stalled") || contains(l, "connection closed") || contains(
        l,
        "unexpected eof",
    ) || contains(l, "incomplete") || contains(l, "broken pipe") || contains(l, "connection reset")
        || contains(l, "body error") || contains(l, "decode")
}

/// Why a stream could not be opened.
#[derive(Debug, Clone, Copy, PartialEq, Eq, Structural)]
pub enum OpenFailure {
    /// The model does not think aloud.
    ThinkingRefused,
    /// The conversation is too long.
    PromptTooLong,
    Other,
}

/// Why a stream could not be opened, by the error in lower case.
pub open spec fn failure_of(lower: Seq<char>) -> OpenFailure {
    if (has_text(lower, "thinking"@) && has_text(lower, "not supported"@)) || has_text(
        lower,
        "adaptive thinking is not supported"@,
    ) {
        OpenFailure::ThinkingRefused
    } else if has_text(lower, "prompt is too long"@) || has_text(lower, "prompt_too_long"@) || has_text(
        lower,
        "input length"@,
    ) || has_text(lower, "max_tokens"@) || has_text(lower, "context window"@) {
        OpenFailure::PromptTooLong
    } else {
        OpenFailure::Other
    }
}

/// Why a stream could not be opened, by the error in lower case.
pub fn classify_lowered(lower: &str) -> (r: OpenFailure)
    ensures
        r == failure_of(lower@),
{
    if (contains(lower, "thinking") && contains(lower, "not supported")) || contains(
        lower,
        "adaptive thinking is not supported",
    ) {
        OpenFailure::ThinkingRefused
    } else if contains(lower, "prompt is too long") || contains(lower, "prompt_too_long") || contains(
        lower,
        "input length",
    ) || contains(lower, "max_tokens") || contains(lower, "context window") {
        OpenFailure::PromptTooLong
    } else {
        OpenFailure::Other
    }
}

/// Why a stream could not be opened.
pub fn classify_open_error(error: &str) -> (r: OpenFailure)
    ensures
        r == failure_of(lowercase(error@)),
{
    let lower = to_lowercase(error);
    classify_lowered(lower.as_str())
}

// ── the request ─────────────────────────────────────────────────────────

/// What a request is about, and what it may do.
#[derive(Debug)]
pub struct RequestContext {
    pub provider: String,
    pub model: String,
    pub message_count: usize,
    pub fallback_enabled: bool,
}

/// What is known once a request has been prepared.
#[derive(Debug, Clone, Copy, PartialEq, Eq, Structural)]
pub struct Prepared {
    pub system_prompt_tokens: usize,
    pub recalled_memory_chars: usize,
    pub advertised_tool_count: usize,
    /// The user expects something to be done, not only said.
    pub action_expected: bool,
}

/// Why the model stopped.
#[derive(Debug, Clone, Copy, PartialEq, Eq, Structural)]
pub enum StopReason {
    EndTurn,
    ToolUse,
    MaxTokens,
    StopSequence,
    Refusal,
    Other,
}

impl StopReason {
    /// The name of the reason.
    pub open spec fn name(self) -> Seq<char> {
        match self {
            StopReason::EndTurn => "EndTurn"@,
            StopReason::ToolUse => "ToolUse"@,
            StopReason::MaxTokens => "MaxTokens"@,
            StopReason::StopSequence => "StopSequence"@,
            StopReason::Refusal => "Refusal"@,
            StopReason::Other => "Other"@,
        }
    }

    pub fn as_str(self) -> (r: &'static str)
        ensures
            r@ == self.name(),
    {
        match self {
            StopReason::EndTurn => "EndTurn",
            StopReason::ToolUse => "ToolUse",
            StopReason::MaxTokens => "MaxTokens",
            StopReason::StopSequence => "StopSequence",
            StopReason::Refusal => "Refusal",
            StopReason::Other => "Other",
        }
    }
}

/// Tokens of a completion.
#[derive(Debug, Clone, Copy, PartialEq, Eq, Structural)]
pub struct CompletionUsage {
    pub input_tokens: u64,
    pub output_tokens: u64,
    pub cache_read_tokens: u64,
    pub cache_write_tokens: u64,
}

/// How far a request has come.
#[derive(Debug, Clone, Copy, PartialEq, Eq, Structural)]
pub enum LifecyclePhase {
    PreparingContext,
    WaitingForFirstByte,
    StreamOpened,
    RetryingWithoutThinking,
    NonStreamingFallback,
}

/// Where a request stands.
#[derive(Debug)]
pub enum StreamState {
    /// It has not been begun.
    New,
    Preparing,
    /// The listeners are being told what is asked.
    Announcing(Prepared),
    /// The stream is being opened, with thinking or without.
    Opening { prepared: Prepared, thinking: bool },
    /// The stream is being read.
    Draining(Prepared),
    /// A plain completion is being tried after that error.
    FallingBack { error: String },
    Finished,
}

/// What came back of a step.
#[derive(Debug)]
pub enum StreamInput {
    Begin,
    Prepared(Prepared),
    /// The listeners are still there, or not.
    Announced(bool),
    Opened,
    OpenFailed(String),
    Drained(StopReason),
    Cancelled(String),
    /// The stream broke off, after something had been shown or before.
    BrokeOff { message: String, committed_output: bool },
    Completed { content: String, usage: CompletionUsage },
    CompletionFailed,
}

/// What is to be done next.
#[derive(Debug)]
pub enum StreamAction {
    /// Say how far the request has come.
    Lifecycle(LifecyclePhase, String),
    Prepare,
    /// Write the call down.
    RecordCall,
    SystemPromptLen(usize),
    MemoryRecalled(usize),
    Announce,
    BeforeHook,
    Open { thinking: bool },
    Drain,
    Complete { thinking: bool },
    Chunk(String),
    Usage { input: u32, output: u32, cache_read: u32, cache_write: u32 },
    AfterHook(String),
    Error(String),
    Done(StopReason),
}

/// An action as a value.
pub enum Action {
    Lifecycle(LifecyclePhase, Seq<char>),
    Prepare,
    RecordCall,
    SystemPromptLen(usize),
    MemoryRecalled(usize),
    Announce,
    BeforeHook,
    Open(bool),
    Drain,
    Complete(bool),
    Chunk(Seq<char>),
    Usage(nat, nat, nat, nat),
    AfterHook(Seq<char>),
    Error(Seq<char>),
    Done(StopReason),
}

/// What an action says.
pub open spec fn action_of(a: StreamAction) -> Action {
    match a {
        StreamAction::Lifecycle(phase, detail) => Action::Lifecycle(phase, detail@),
        StreamAction::Prepare => Action::Prepare,
        StreamAction::RecordCall => Action::RecordCall,
        StreamAction::SystemPromptLen(n) => Action::SystemPromptLen(n),
        StreamAction::MemoryRecalled(n) => Action::MemoryRecalled(n),
        StreamAction::Announce => Action::Announce,
        StreamAction::BeforeHook => Action::BeforeHook,
        StreamAction::Open { thinking } => Action::Open(thinking),
        StreamAction::Drain => Action::Drain,
        StreamAction::Complete { thinking } => Action::Complete(thinking),
        StreamAction::Chunk(s) => Action::Chunk(s@),
        StreamAction::Usage { input, output, cache_read, cache_write } => Action::Usage(
            input as nat,
            output as nat,
            cache_read as nat,
            cache_write as nat,
        ),
        StreamAction::AfterHook(s) => Action::AfterHook(s@),
        StreamAction::Error(s) => Action::Error(s@),
        StreamAction::Done(r) => Action::Done(r),
    }
}

/// What actions say.
pub open spec fn actions_of(v: Seq<StreamAction>) -> Seq<Action> {
    v.map_values(|a: StreamAction| action_of(a))
}

/// A state as a value.
pub enum State {
    New,
    Preparing,
    Announcing(Prepared),
    Opening(Prepared, bool),
    Draining(Prepared),
    FallingBack(Seq<char>),
    Finished,
}

/// What a state says.
pub open spec fn state_of(s: StreamState) -> State {
    match s {
        StreamState::New => State::New,
        StreamState::Preparing => State::Preparing,
        StreamState::Announcing(p) => State::Announcing(p),
        StreamState::Opening { prepared, thinking } => State::Opening(prepared, thinking),
        StreamState::Draining(p) => State::Draining(p),
        StreamState::FallingBack { error } => State::FallingBack(error@),
        StreamState::Finished => State::Finished,
    }
}

// ── steps ───────────────────────────────────────────────────────────────

/// A plain completion may make up for the error: it is switched on, the stream
/// died away, and no tool is owed to the user.
pub open spec fn falls_back(ctx: RequestContext, p: Prepared, error: Seq<char>) -> bool {
    ctx.fallback_enabled && is_stale(ascii_lowered(error)) && !(p.action_expected && p.advertised_tool_count > 0)
}

/// Whether a plain completion may make up for the error.
pub fn should_fall_back(ctx: &RequestContext, p: &Prepared, error: &str) -> (r: bool)
    ensures
        r == falls_back(*ctx, *p, error@),
{
    ctx.fallback_enabled && error_looks_stream_stale_or_idle(error) && !(p.action_expected
        && p.advertised_tool_count > 0)
}

/// What follows a failure.
pub open spec fn after_failure(ctx: RequestContext, p: Prepared, error: Seq<char>, thinking: bool) -> (
    State,
    Seq<Action>,
) {
    if falls_back(ctx, p, error) {
        (
            State::FallingBack(error),
            seq![
                Action::Lifecycle(LifecyclePhase::NonStreamingFallback, ctx.provider@),
                Action::Complete(thinking),
            ],
        )
    } else {
        (State::Finished, seq![Action::Error(error)])
    }
}

fn fail(ctx: &RequestContext, p: &Prepared, error: String, thinking: bool) -> (r: (StreamState, Vec<StreamAction>))
    ensures
        (state_of(r.0), actions_of(r.1@)) == after_failure(*ctx, *p, error@, thinking),
{
    let mut out: Vec<StreamAction> = Vec::new();
    if should_fall_back(ctx, p, error.as_str()) {
        out.push(StreamAction::Lifecycle(LifecyclePhase::NonStreamingFallback, ctx.provider.clone()));
        out.push(StreamAction::Complete { thinking });
        assert(actions_of(out@) =~= after_failure(*ctx, *p, error@, thinking).1);
        (StreamState::FallingBack { error }, out)
    } else {
        out.push(StreamAction::Error(error));
        assert(actions_of(out@) =~= after_failure(*ctx, *p, error@, thinking).1);
        (StreamState::Finished, out)
    }
}

/// What follows a stream that could not be opened.
pub open spec fn after_open_failed(ctx: RequestContext, p: Prepared, error: Seq<char>, thinking: bool) -> (
    State,
    Seq<Action>,
) {
    if !thinking {
        after_failure(ctx, p, error, false)
    } else {
        match failure_of(lowercase(error)) {
            OpenFailure::ThinkingRefused => (
                State::Opening(p, false),
                seq![
                    Action::Lifecycle(LifecyclePhase::RetryingWithoutThinking, ctx.model@),
                    Action::Open(false),
                ],
            ),
            OpenFailure::PromptTooLong => (
                State::Finished,
                seq![Action::Error("auto-compact: "@ + error)],
            ),
            OpenFailure::Other => after_failure(ctx, p, error, true),
        }
    }
}

fn open_failed(ctx: &RequestContext, p: &Prepared, error: String, thinking: bool) -> (r: (StreamState, Vec<StreamAction>))
    ensures
        (state_of(r.0), actions_of(r.1@)) == after_open_failed(*ctx, *p, error@, thinking),
{
    if !thinking {
        return fail(ctx, p, error, false);
    }
    let mut out: Vec<StreamAction> = Vec::new();
    match classify_open_error(error.as_str()) {
        OpenFailure::ThinkingRefused => {
            out.push(StreamAction::Lifecycle(LifecyclePhase::RetryingWithoutThinking, ctx.model.clone()));
            out.push(StreamAction::Open { thinking: false });
            assert(actions_of(out@) =~= after_open_failed(*ctx, *p, error@, thinking).1);
            (StreamState::Opening { prepared: *p, thinking: false }, out)
        },
        OpenFailure::PromptTooLong => {
            out.push(StreamAction::Error(cat2("auto-compact: ", error.as_str())));
            assert(actions_of(out@) =~= after_open_failed(*ctx, *p, error@, thinking).1);
            (StreamState::Finished, out)
        },
        OpenFailure::Other => fail(ctx, p, error, true),
    }
}

/// What follows once the request has been prepared.
pub open spec fn after_prepared(p: Prepared) -> Seq<Action> {
    let recalled = if p.recalled_memory_chars > 0 {
        seq![Action::MemoryRecalled(p.recalled_memory_chars)]
    } else {
        Seq::empty()
    };
    seq![Action::RecordCall, Action::SystemPromptLen(p.system_prompt_tokens)] + recalled + seq![
        Action::Announce,
    ]
}

/// What follows a plain completion: its text, its usage, and the end of the
/// turn.
pub open spec fn after_completion(content: Seq<char>, u: CompletionUsage) -> Seq<Action> {
    let text = if content.len() > 0 {
        seq![Action::Chunk(content)]
    } else {
        Seq::empty()
    };
    text + seq![
        Action::Usage(
            u.input_tokens as nat % 0x1_0000_0000,
            u.output_tokens as nat % 0x1_0000_0000,
            u.cache_read_tokens as nat % 0x1_0000_0000,
            u.cache_write_tokens as nat % 0x1_0000_0000,
        ),
        Action::AfterHook("nonstreaming_fallback"@),
        Action::Done(StopReason::EndTurn),
    ]
}

fn low_bits(n: u64) -> (r: u32)
    ensures
        r == n as nat % 0x1_0000_0000,
{
    (n % 0x1_0000_0000) as u32
}

fn completed(content: String, u: CompletionUsage) -> (r: Vec<StreamAction>)
    ensures
        actions_of(r@) == after_completion(content@, u),
{
    let mut out: Vec<StreamAction> = Vec::new();
    let ghost text = content@;
    if char_count(content.as_str()) > 0 {
        out.push(StreamAction::Chunk(content));
    }
    out.push(
        StreamAction::Usage {
            input: low_bits(u.input_tokens),
            output: low_bits(u.output_tokens),
            cache_read: low_bits(u.cache_read_tokens),
            cache_write: low_bits(u.cache_write_tokens),
        },
    );
    out.push(StreamAction::AfterHook("nonstreaming_fallback".to_owned()));
    out.push(StreamAction::Done(StopReason::EndTurn));
    assert(actions_of(out@) =~= after_completion(text, u));
    out
}

/// What follows a step. Anything that does not belong to the state changes
/// nothing.
pub open spec fn next(ctx: RequestContext, s: State, input: StreamInput) -> (State, Seq<Action>) {
    match (s, input) {
        (State::New, StreamInput::Begin) => (
            State::Preparing,
            seq![
                Action::Lifecycle(
                    LifecyclePhase::PreparingContext,
                    decimal(ctx.message_count as nat) + " messages"@,
                ),
                Action::Prepare,
            ],
        ),
        (State::Preparing, StreamInput::Prepared(p)) => (State::Announcing(p), after_prepared(p)),
        (State::Announcing(p), StreamInput::Announced(heard)) => if heard {
            (
                State::Opening(p, true),
                seq![
                    Action::BeforeHook,
                    Action::Lifecycle(
                        LifecyclePhase::WaitingForFirstByte,
                        ctx.provider@ + " · "@ + ctx.model@,
                    ),
                    Action::Open(true),
                ],
            )
        } else {
            (State::Finished, Seq::empty())
        },
        (State::Opening(p, thinking), StreamInput::Opened) => (
            State::Draining(p),
            if thinking {
                seq![
                    Action::Lifecycle(LifecyclePhase::StreamOpened, "waiting for first event"@),
                    Action::Drain,
                ]
            } else {
                seq![Action::Drain]
            },
        ),
        (State::Opening(p, thinking), StreamInput::OpenFailed(e)) => after_open_failed(
            ctx,
            p,
            e@,
            thinking,
        ),
        (State::Draining(p), StreamInput::Drained(reason)) => (
            State::Finished,
            seq![Action::AfterHook(reason.name()), Action::Done(reason)],
        ),
        (State::Draining(p), StreamInput::Cancelled(m)) => (State::Finished, seq![Action::Error(m@)]),
        (State::Draining(p), StreamInput::BrokeOff { message, committed_output }) => if committed_output {
            (State::Finished, seq![Action::Error(message@)])
        } else {
            after_failure(ctx, p, message@, true)
        },
        (State::FallingBack(e), StreamInput::Completed { content, usage }) => (
            State::Finished,
            after_completion(content@, usage),
        ),
        (State::FallingBack(e), StreamInput::CompletionFailed) => (
            State::Finished,
            seq![Action::Error(e)],
        ),
        _ => (s, Seq::empty()),
    }
}

fn begin(ctx: &RequestContext) -> (r: Vec<StreamAction>)
    ensures
        actions_of(r@) == seq![
            Action::Lifecycle(
                LifecyclePhase::PreparingContext,
                decimal(ctx.message_count as nat) + " messages"@,
            ),
            Action::Prepare,
        ],
{
    let mut out: Vec<StreamAction> = Vec::new();
    out.push(
        StreamAction::Lifecycle(
            LifecyclePhase::PreparingContext,
            cat2(count_text(ctx.message_count).as_str(), " messages"),
        ),
    );
    out.push(StreamAction::Prepare);
    assert(actions_of(out@) =~= seq![
        Action::Lifecycle(
            LifecyclePhase::PreparingContext,
            decimal(ctx.message_count as nat) + " messages"@,
        ),
        Action::Prepare,
    ]);
    out
}

fn announce(p: &Prepared) -> (r: Vec<StreamAction>)
    ensures
        actions_of(r@) == after_prepared(*p),
{
    let mut out: Vec<StreamAction> = Vec::new();
    out.push(StreamAction::RecordCall);
    out.push(StreamAction::SystemPromptLen(p.system_prompt_tokens));
    if p.recalled_memory_chars > 0 {
        out.push(StreamAction::MemoryRecalled(p.recalled_memory_chars));
    }
    out.push(StreamAction::Announce);
    assert(actions_of(out@) =~= after_prepared(*p));
    out
}

fn open_first(ctx: &RequestContext) -> (r: Vec<StreamAction>)
    ensures
        actions_of(r@) == seq![
            Action::BeforeHook,
            Action::Lifecycle(LifecyclePhase::WaitingForFirstByte, ctx.provider@ + " · "@ + ctx.model@),
            Action::Open(true),
        ],
{
    let mut out: Vec<StreamAction> = Vec::new();
    out.push(StreamAction::BeforeHook);
    out.push(
        StreamAction::Lifecycle(
            LifecyclePhase::WaitingForFirstByte,
            cat3(ctx.provider.as_str(), " · ", ctx.model.as_str()),
        ),
    );
    out.push(StreamAction::Open { thinking: true });
    assert(actions_of(out@) =~= seq![
        Action::BeforeHook,
        Action::Lifecycle(LifecyclePhase::WaitingForFirstByte, ctx.provider@ + " · "@ + ctx.model@),
        Action::Open(true),
    ]);
    out
}

fn drain(thinking: bool) -> (r: Vec<StreamAction>)
    ensures
        actions_of(r@) == (if thinking {
            seq![
                Action::Lifecycle(LifecyclePhase::StreamOpened, "waiting for first event"@),
                Action::Drain,
            ]
        } else {
            seq![Action::Drain]
        }),
{
    let mut out: Vec<StreamAction> = Vec::new();
    if thinking {
        out.push(
            StreamAction::Lifecycle(
                LifecyclePhase::StreamOpened,
                "waiting for first event".to_owned(),
            ),
        );
        out.push(StreamAction::Drain);
        assert(actions_of(out@) =~= seq![
            Action::Lifecycle(LifecyclePhase::StreamOpened, "waiting for first event"@),
            Action::Drain,
        ]);
    } else {
        out.push(StreamAction::Drain);
        assert(actions_of(out@) =~= seq![Action::Drain]);
    }
    out
}

fn only(a: StreamAction) -> (r: Vec<StreamAction>)
    ensures
        actions_of(r@) == seq![action_of(a)],
{
    let mut out: Vec<StreamAction> = Vec::new();
    out.push(a);
    assert(actions_of(out@) =~= seq![action_of(a)]);
    out
}

fn nothing() -> (r: Vec<StreamAction>)
    ensures
        actions_of(r@) == Seq::<Action>::empty(),
{
    let out: Vec<StreamAction> = Vec::new();
    assert(actions_of(out@) =~= Seq::<Action>::empty());
    out
}

fn done(reason: StopReason) -> (r: Vec<StreamAction>)
    ensures
        actions_of(r@) == seq![Action::AfterHook(reason.name()), Action::Done(reason)],
{
    let mut out: Vec<StreamAction> = Vec::new();
    out.push(StreamAction::AfterHook(reason.as_str().to_owned()));
    out.push(StreamAction::Done(reason));
    assert(actions_of(out@) =~= seq![Action::AfterHook(reason.name()), Action::Done(reason)]);
    out
}

/// What follows a step of a request: where it stands now, and what is to be
/// done next.
pub fn stream_response(ctx: &RequestContext, state: StreamState, input: StreamInput) -> (r: (
    StreamState,
    Vec<StreamAction>,
))
    ensures
        (state_of(r.0), actions_of(r.1@)) == next(*ctx, state_of(state), input),
{
    match (state, input) {
        (StreamState::New, StreamInput::Begin) => (StreamState::Preparing, begin(ctx)),
        (StreamState::Preparing, StreamInput::Prepared(p)) => {
            let out = announce(&p);
            (StreamState::Announcing(p), out)
        },
        (StreamState::Announcing(p), StreamInput::Announced(heard)) => if heard {
            (StreamState::Opening { prepared: p, thinking: true }, open_first(ctx))
        } else {
            (StreamState::Finished, nothing())
        },
        (StreamState::Opening { prepared, thinking }, StreamInput::Opened) => (
            StreamState::Draining(prepared),
            drain(thinking),
        ),
        (StreamState::Opening { prepared, thinking }, StreamInput::OpenFailed(e)) => open_failed(
            ctx,
            &prepared,
            e,
            thinking,
        ),
        (StreamState::Draining(_p), StreamInput::Drained(reason)) => (StreamState::Finished, done(reason)),
        (StreamState::Draining(_p), StreamInput::Cancelled(m)) => (
            StreamState::Finished,
            only(StreamAction::Error(m)),
        ),
        (StreamState::Draining(p), StreamInput::BrokeOff { message, committed_output }) => {
            if committed_output {
                (StreamState::Finished, only(StreamAction::Error(message)))
            } else {
                fail(ctx, &p, message, true)
            }
        },
        (StreamState::FallingBack { error: _ }, StreamInput::Completed { content, usage }) => (
            StreamState::Finished,
            completed(content, usage),
        ),
        (StreamState::FallingBack { error }, StreamInput::CompletionFailed) => (
            StreamState::Finished,
            only(StreamAction::Error(error)),
        ),
        (state, _) => (state, nothing()),
    }
}

// ── opening ─────────────────────────────────────────────────────────────

/// What came of opening a stream.
#[derive(Debug)]
pub enum OpenOutcome {
    Opened,
    Failed(String),
    /// The user did not want it any more.
    Cancelled,
    /// Nothing came back in that time.
    TimedOut(Duration),
}

/// The error of a stream that did not open in time.
pub open spec fn timed_out_text(secs: nat) -> Seq<char> {
    "Stream open timed out after "@ + decimal(secs) + "s before first provider response"@
}

/// Tell a request what came of opening its stream.
pub fn opened_input(outcome: OpenOutcome) -> (r: StreamInput)
    ensures
        match outcome {
            OpenOutcome::Opened => r is Opened,
            OpenOutcome::Failed(e) => r == StreamInput::OpenFailed(e),
            OpenOutcome::Cancelled => r matches StreamInput::OpenFailed(e) && e@
                == "Stream cancelled before connection opened"@,
            OpenOutcome::TimedOut(limit) => r matches StreamInput::OpenFailed(e) && e@ == timed_out_text(
                limit.secs(),
            ),
        },
{
    match outcome {
        OpenOutcome::Opened => StreamInput::Opened,
        OpenOutcome::Failed(e) => StreamInput::OpenFailed(e),
        OpenOutcome::Cancelled => StreamInput::OpenFailed("Stream cancelled before connection opened".to_owned()),
        OpenOutcome::TimedOut(limit) => StreamInput::OpenFailed(
            cat3(
                "Stream open timed out after ",
                decimal_text(limit.as_secs()).as_str(),
                "s before first provider response",
            ),
        ),
    }
}

// ── laws ────────────────────────────────────────────────────────────────

/// A response that was shown in part is never asked for again in another way:
/// that would show its text twice.
pub proof fn law_shown_output_is_not_repeated(ctx: RequestContext, p: Prepared, message: String)
    ensures
        next(
            ctx,
            State::Draining(p),
            StreamInput::BrokeOff { message, committed_output: true },
        ) == (State::Finished, seq![Action::Error(message@)]),
{
}

/// Where the user is owed a tool, no plain completion stands in for the stream.
pub proof fn law_owed_tools_are_not_skipped(ctx: RequestContext, p: Prepared, error: Seq<char>, thinking: bool)
    requires
        p.action_expected,
        p.advertised_tool_count > 0,
    ensures
        after_failure(ctx, p, error, thinking) == (State::Finished, seq![Action::Error(error)]),
{
}

/// Without thinking a stream is opened once: a second refusal is not answered
/// by a third try.
pub proof fn law_thinking_is_dropped_once(ctx: RequestContext, p: Prepared, e: String)
    ensures
        !(next(ctx, State::Opening(p, false), StreamInput::OpenFailed(e)).0 is Opening),
{
}

/// The request has come to an end, and the listeners are told so: with the end
/// of the turn or with an error, as the last thing.
pub proof fn law_end_is_told(ctx: RequestContext, s: State, input: StreamInput)
    requires
        !(s is Finished),
        next(ctx, s, input).0 is Finished,
        !(s is Announcing),
    ensures
        ({
            let actions = next(ctx, s, input).1;
            actions.len() > 0 && (actions.last() is Error || actions.last() is Done)
        }),
{
}

/// The character stands in none of the words by which a refusal is known.
spec fn is_harmless(c: char) -> bool {
    c as u32 <= 127 && c != 'k' && c != 'K' && c != 'g' && c != 'G' && c != '_' && c != 'x' && c != 'X'
}

spec fn are_harmless(s: Seq<char>) -> bool {
    forall|i: int| 0 <= i < s.len() ==> is_harmless(#[trigger] s[i])
}

proof fn lemma_digits_are_harmless(n: nat)
    ensures
        are_harmless(decimal(n)),
    decreases n,
{
    if n >= 10 {
        lemma_digits_are_harmless(n / 10);
    }
}

/// A word with a character that `hay` lacks does not stand in it.
proof fn lemma_lacks_word(hay: Seq<char>, word: Seq<char>, at: int)
    requires
        0 <= at < word.len(),
        forall|i: int| 0 <= i < hay.len() ==> #[trigger] hay[i] != word[at],
    ensures
        !has_text(hay, word),
{
    if has_text(hay, word) {
        let i = choose|i: int| occurs_at(hay, word, i);
        assert(hay.subrange(i, i + word.len())[at] == hay[i + at]);
    }
}

/// A word with two characters in a row that do not follow each other in `hay`
/// does not stand in it.
proof fn lemma_lacks_pair(hay: Seq<char>, word: Seq<char>, at: int)
    requires
        0 <= at,
        at + 1 < word.len(),
        forall|i: int| 0 <= i && i + 1 < hay.len() && #[trigger] hay[i] == word[at] ==> hay[i + 1] != word[at + 1],
    ensures
        !has_text(hay, word),
{
    if has_text(hay, word) {
        let i = choose|i: int| occurs_at(hay, word, i);
        assert(hay.subrange(i, i + word.len())[at] == hay[i + at]);
        assert(hay.subrange(i, i + word.len())[at + 1] == hay[i + at + 1]);
    }
}

proof fn lemma_harmless_is_no_refusal(s: Seq<char>)
    requires
        are_harmless(s),
    ensures
        failure_of(lowercase(s)) == OpenFailure::Other,
{
    assert(all_ascii(s)) by {
        assert forall|i: int| 0 <= i < s.len() implies in_ascii(#[trigger] s[i]) by {
            assert(is_harmless(s[i]));
        }
    }
    let lower = lowercase(s);
    assert forall|i: int| 0 <= i < lower.len() implies #[trigger] lower[i] != 'k' && lower[i] != 'g' && lower[i]
        != '_' && lower[i] != 'x' by {
        assert(is_harmless(s[i]));
        assert(lower[i] == ascii_lower(s[i]));
    }
    reveal_strlit("thinking");
    reveal_strlit("adaptive thinking is not supported");
    reveal_strlit("prompt is too long");
    reveal_strlit("prompt_too_long");
    reveal_strlit("input length");
    reveal_strlit("max_tokens");
    reveal_strlit("context window");
    lemma_lacks_word(lower, "thinking"@, 4);
    lemma_lacks_word(lower, "adaptive thinking is not supported"@, 13);
    lemma_lacks_word(lower, "prompt is too long"@, 17);
    lemma_lacks_word(lower, "prompt_too_long"@, 6);
    lemma_lacks_word(lower, "input length"@, 9);
    lemma_lacks_word(lower, "max_tokens"@, 2);
    lemma_lacks_word(lower, "context window"@, 5);
}

/// A stream that did not open in time is made up for by a plain completion,
/// wherever one may be made.
pub proof fn law_late_opening_falls_back(ctx: RequestContext, p: Prepared, secs: nat, thinking: bool)
    requires
        ctx.fallback_enabled,
        !(p.action_expected && p.advertised_tool_count > 0),
    ensures
        after_open_failed(ctx, p, timed_out_text(secs), thinking) == (
            State::FallingBack(timed_out_text(secs)),
            seq![
                Action::Lifecycle(LifecyclePhase::NonStreamingFallback, ctx.provider@),
                Action::Complete(thinking),
            ],
        ),
{
    let error = timed_out_text(secs);
    reveal_strlit("Stream open timed out after ");
    reveal_strlit("s before first provider response");
    reveal_strlit("stream open timed out");
    lemma_digits_are_harmless(secs);
    assert(are_harmless("Stream open timed out after "@));
    assert(are_harmless("s before first provider response"@));
    assert(are_harmless(error));
    lemma_harmless_is_no_refusal(error);
    let lower = ascii_lowered(error);
    assert(lower.subrange(0, 21) =~= "stream open timed out"@);
    assert(occurs_at(lower, "stream open timed out"@, 0));
}

/// A cancelled request ends with the error that says so.
pub proof fn law_cancelling_ends_the_request(ctx: RequestContext, p: Prepared, thinking: bool)
    ensures
        after_open_failed(ctx, p, "Stream cancelled before connection opened"@, thinking) == (
            State::Finished,
            seq![Action::Error("Stream cancelled before connection opened"@)],
        ),
{
    let error = "Stream cancelled before connection opened"@;
    reveal_strlit("Stream cancelled before connection opened");
    assert(are_harmless(error));
    lemma_harmless_is_no_refusal(error);
    let lower = ascii_lowered(error);
    reveal_strlit("stream cancelled before connection opened");
    assert(lower =~= "stream cancelled before connection opened"@);
    reveal_strlit("stream timed out");
    reveal_strlit("stream open timed out");
    reveal_strlit("before first event");
    reveal_strlit("before first byte");
    reveal_strlit("first provider response");
    reveal_strlit("first sse");
    reveal_strlit("idle");
    reveal_strlit("stalled");
    reveal_strlit("connection closed");
    reveal_strlit("unexpected eof");
    reveal_strlit("incomplete");
    reveal_strlit("broken pipe");
    reveal_strlit("connection reset");
    reveal_strlit("body error");
    reveal_strlit("decode");
    lemma_lacks_word(lower, "stream timed out"@, 14);
    lemma_lacks_word(lower, "stream open timed out"@, 19);
    lemma_lacks_word(lower, "before first event"@, 14);
    lemma_lacks_word(lower, "before first byte"@, 14);
    lemma_lacks_word(lower, "first provider response"@, 9);
    lemma_lacks_pair(lower, "first sse"@, 0);
    lemma_lacks_pair(lower, "idle"@, 0);
    lemma_lacks_pair(lower, "stalled"@, 1);
    lemma_lacks_pair(lower, "connection closed"@, 11);
    lemma_lacks_word(lower, "unexpected eof"@, 0);
    lemma_lacks_pair(lower, "incomplete"@, 0);
    lemma_lacks_word(lower, "broken pipe"@, 3);
    lemma_lacks_pair(lower, "connection reset"@, 10);
    lemma_lacks_word(lower, "body error"@, 3);
    lemma_lacks_pair(lower, "decode"@, 0);
}

/// What is finished stays finished.
pub proof fn law_finished_stays_finished(ctx: RequestContext, input: StreamInput)
    ensures
        next(ctx, State::Finished, input) == (State::Finished, Seq::<Action>::empty()),
{
}

/// The request went from one state to the other on that input, with those actions.
pub open spec fn is_step(
    ctx: RequestContext,
    before: StreamState,
    input: StreamInput,
    after: StreamState,
    actions: Seq<StreamAction>,
) -> bool {
    (state_of(after), actions_of(actions)) == next(ctx, state_of(before), input)
}

proof fn lemma_actions(actions: Seq<StreamAction>, i: int)
    requires
        0 <= i < actions.len(),
    ensures
        actions_of(actions).len() == actions.len(),
        actions_of(actions)[i] == action_of(actions[i]),
{
}

/// Why the model stopped is passed on: a stream that ends finishes the request, the
/// last thing said is that very reason, and the hook before it hears its name.
pub proof fn law_stop_reason_is_passed_on(
    ctx: RequestContext,
    p: Prepared,
    reason: StopReason,
    after: StreamState,
    actions: Seq<StreamAction>,
)
    requires
        is_step(ctx, StreamState::Draining(p), StreamInput::Drained(reason), after, actions),
    ensures
        after is Finished,
        actions.len() == 2,
        actions[1] == StreamAction::Done(reason),
        actions[0] is AfterHook,
        reason == StopReason::EndTurn ==> actions[0]->AfterHook_0@ == "EndTurn"@,
        reason == StopReason::ToolUse ==> actions[0]->AfterHook_0@ == "ToolUse"@,
        reason == StopReason::MaxTokens ==> actions[0]->AfterHook_0@ == "MaxTokens"@,
        reason == StopReason::StopSequence ==> actions[0]->AfterHook_0@ == "StopSequence"@,
        reason == StopReason::Refusal ==> actions[0]->AfterHook_0@ == "Refusal"@,
        reason == StopReason::Other ==> actions[0]->AfterHook_0@ == "Other"@,
{
    assert(actions_of(actions).len() == 2);
    lemma_actions(actions, 0);
    lemma_actions(actions, 1);
}

proof fn lemma_stop_names_differ(a: StopReason, b: StopReason)
    requires
        a != b,
    ensures
        a.name() != b.name(),
{
    reveal_strlit("EndTurn");
    reveal_strlit("ToolUse");
    reveal_strlit("MaxTokens");
    reveal_strlit("StopSequence");
    reveal_strlit("Refusal");
    reveal_strlit("Other");
    assert("EndTurn"@[0] == 'E');
    assert("ToolUse"@[0] == 'T');
    assert("MaxTokens"@[0] == 'M');
    assert("StopSequence"@[0] == 'S');
    assert("Refusal"@[0] == 'R');
    assert("Other"@[0] == 'O');
}

/// Two reasons never look the same from outside: neither to the hook nor to the
/// one who waits for the end.
pub proof fn law_stop_reasons_are_told_apart(
    ctx: RequestContext,
    p: Prepared,
    q: Prepared,
    one: StopReason,
    other: StopReason,
    after: StreamState,
    actions: Seq<StreamAction>,
    others: Seq<StreamAction>,
)
    requires
        one != other,
        is_step(ctx, StreamState::Draining(p), StreamInput::Drained(one), after, actions),
        is_step(ctx, StreamState::Draining(q), StreamInput::Drained(other), after, others),
    ensures
        actions[0]->AfterHook_0@ != others[0]->AfterHook_0@,
        actions.last() != others.last(),
{
    law_stop_reason_is_passed_on(ctx, p, one, after, actions);
    law_stop_reason_is_passed_on(ctx, q, other, after, others);
    lemma_stop_names_differ(one, other);
}

/// The texts that are shown, one after the other.
pub open spec fn shown_text(actions: Seq<StreamAction>) -> Seq<char>
    decreases actions.len(),
{
    if actions.len() == 0 {
        Seq::empty()
    } else {
        match actions.last() {
            StreamAction::Chunk(s) => shown_text(actions.drop_last()) + s@,
            _ => shown_text(actions.drop_last()),
        }
    }
}

/// What a plain completion said is shown, all of it and once, its usage is reported
/// number by number, and the turn ends.
pub proof fn law_completion_is_shown_and_counted(
    ctx: RequestContext,
    error: String,
    content: String,
    usage: CompletionUsage,
    after: StreamState,
    actions: Seq<StreamAction>,
)
    requires
        is_step(
            ctx,
            StreamState::FallingBack { error },
            StreamInput::Completed { content, usage },
            after,
            actions,
        ),
    ensures
        after is Finished,
        shown_text(actions) == content@,
        actions.last() == StreamAction::Done(StopReason::EndTurn),
        usage.input_tokens <= u32::MAX && usage.output_tokens <= u32::MAX && usage.cache_read_tokens <= u32::MAX
            && usage.cache_write_tokens <= u32::MAX ==> exists|i: int|
            0 <= i < actions.len() && #[trigger] actions[i] == (StreamAction::Usage {
                input: usage.input_tokens as u32,
                output: usage.output_tokens as u32,
                cache_read: usage.cache_read_tokens as u32,
                cache_write: usage.cache_write_tokens as u32,
            }),
{
    let n = actions.len();
    assert(actions_of(actions).len() == n);
    assert(n == 3 || n == 4);
    lemma_actions(actions, n - 1);
    lemma_actions(actions, n - 2);
    lemma_actions(actions, n - 3);
    let a = actions.drop_last();
    let b = a.drop_last();
    let c = b.drop_last();
    assert(a.last() == actions[n - 2] && b.last() == actions[n - 3]);
    assert(actions[n - 3] is Usage);
    assert(shown_text(b) == shown_text(c));
    assert(shown_text(a) == shown_text(b));
    assert(shown_text(actions) == shown_text(a));
    if n == 4 {
        lemma_actions(actions, 0);
        assert(c.last() == actions[0]);
        assert(c.drop_last().len() == 0);
        assert(shown_text(c.drop_last()) =~= Seq::empty());
        assert(shown_text(c) =~= content@);
    } else {
        assert(c.len() == 0);
        assert(content@ =~= Seq::empty());
        assert(shown_text(c) =~= content@);
    }
}

/// Whatever ends a request in failure is told with its own words: the last thing
/// said is the error that came in, at most with a mark in front.
pub proof fn law_errors_keep_their_words(
    ctx: RequestContext,
    before: StreamState,
    input: StreamInput,
    after: StreamState,
    actions: Seq<StreamAction>,
)
    requires
        is_step(ctx, before, input, after, actions),
        after is Finished,
        match before {
            StreamState::Opening { .. } => input is OpenFailed,
            StreamState::Draining(_) => input is Cancelled || input is BrokeOff,
            StreamState::FallingBack { .. } => input is CompletionFailed,
            _ => false,
        },
    ensures
        actions.len() == 1,
        actions[0] is Error,
        ({
            let said = actions[0]->Error_0@;
            match (before, input) {
                (StreamState::Opening { thinking, .. }, StreamInput::OpenFailed(e)) => said == e@ || (thinking && said
                    == "auto-compact: "@ + e@),
                (_, StreamInput::Cancelled(m)) => said == m@,
                (_, StreamInput::BrokeOff { message, .. }) => said == message@,
                (StreamState::FallingBack { error }, _) => said == error@,
                _ => false,
            }
        }),
{
    assert(actions_of(actions).len() == 1);
    lemma_actions(actions, 0);
}

/// A stream is asked for with thinking first, and without it only after the model
/// refused to think; a plain completion thinks where its stream was to.
pub proof fn law_thinking_is_asked_for_first(
    ctx: RequestContext,
    before: StreamState,
    input: StreamInput,
    after: StreamState,
    actions: Seq<StreamAction>,
    i: int,
)
    requires
        is_step(ctx, before, input, after, actions),
        0 <= i < actions.len(),
    ensures
        actions[i] == (StreamAction::Open { thinking: true }) ==> before is Announcing && input
            == StreamInput::Announced(true) && after matches StreamState::Opening { thinking: true, .. },
        actions[i] == (StreamAction::Open { thinking: false }) ==> {
            &&& before matches StreamState::Opening { thinking: true, .. }
            &&& input is OpenFailed
            &&& after matches StreamState::Opening { thinking: false, .. }
            &&& has_text(lowercase(input->OpenFailed_0@), "thinking"@) || has_text(
                lowercase(input->OpenFailed_0@),
                "adaptive thinking is not supported"@,
            )
        },
        (before matches StreamState::Opening { thinking, .. } && actions[i] is Complete) ==> actions[i]->Complete_thinking
            == before->thinking,
        before is Draining && actions[i] is Complete ==> actions[i]->Complete_thinking,
        actions[i] is Complete ==> after is FallingBack && ctx.fallback_enabled,
        actions[i] is Drain ==> after is Draining && before is Opening && input is Opened,
        actions[i] is Done ==> after is Finished,
        actions[i] is Error ==> after is Finished,
{
    lemma_actions(actions, i);
}

/// What each step of a request that goes well asks for: it is prepared, written
/// down, announced, opened and read, in that order, and what was prepared is
/// carried along.
pub proof fn law_requests_take_their_steps(
    ctx: RequestContext,
    p: Prepared,
    thinking: bool,
    after: StreamState,
    actions: Seq<StreamAction>,
)
    ensures
        is_step(ctx, StreamState::New, StreamInput::Begin, after, actions) ==> after is Preparing && actions.last()
            is Prepare,
        is_step(ctx, StreamState::Preparing, StreamInput::Prepared(p), after, actions) ==> {
            &&& after == StreamState::Announcing(p)
            &&& actions[0] is RecordCall
            &&& actions[1] == StreamAction::SystemPromptLen(p.system_prompt_tokens)
            &&& actions.last() is Announce
            &&& p.recalled_memory_chars > 0 ==> actions.contains(StreamAction::MemoryRecalled(p.recalled_memory_chars))
            &&& p.recalled_memory_chars == 0 ==> actions.len() == 3
        },
        is_step(ctx, StreamState::Announcing(p), StreamInput::Announced(true), after, actions) ==> {
            &&& after == (StreamState::Opening { prepared: p, thinking: true })
            &&& actions[0] is BeforeHook
            &&& actions.last() == (StreamAction::Open { thinking: true })
        },
        is_step(ctx, StreamState::Announcing(p), StreamInput::Announced(false), after, actions) ==> after is Finished
            && actions.len() == 0,
        is_step(
            ctx,
            StreamState::Opening { prepared: p, thinking },
            StreamInput::Opened,
            after,
            actions,
        ) ==> after == StreamState::Draining(p) && actions.last() is Drain,
{
    assert(actions_of(actions).len() == actions.len());
    if actions.len() > 0 {
        lemma_actions(actions, 0);
        lemma_actions(actions, actions.len() - 1);
    }
    if actions.len() > 2 {
        lemma_actions(actions, 1);
        lemma_actions(actions, 2);
        if actions[2] == StreamAction::MemoryRecalled(p.recalled_memory_chars) {
            assert(actions.contains(actions[2]));
        }
    }
}

/// A failure that may be made up for is: wherever the stream died away before
/// anything was shown, completions are allowed and no tool is owed, a plain
/// completion is asked for and the error is kept for the case that it fails too.
pub proof fn law_dead_streams_are_made_up_for(
    ctx: RequestContext,
    p: Prepared,
    message: String,
    after: StreamState,
    actions: Seq<StreamAction>,
)
    requires
        is_step(
            ctx,
            StreamState::Draining(p),
            StreamInput::BrokeOff { message, committed_output: false },
            after,
            actions,
        ),
        ctx.fallback_enabled,
        !p.action_expected || p.advertised_tool_count == 0,
        is_stale(ascii_lowered(message@)),
    ensures
        after is FallingBack,
        after->FallingBack_error@ == message@,
        actions.last() == (StreamAction::Complete { thinking: true }),
{
    assert(actions_of(actions).len() == 2);
    lemma_actions(actions, 1);
}

proof fn lemma_lowered_word(error: Seq<char>, word: Seq<char>, at: int)
    requires
        0 <= at <= error.len() - word.len(),
        forall|k: int| 0 <= k < word.len() ==> ascii_lower(#[trigger] error[at + k]) == word[k],
    ensures
        has_text(ascii_lowered(error), word),
{
    let lower = ascii_lowered(error);
    assert forall|k: int| 0 <= k < word.len() implies lower.subrange(at, at + word.len())[k] == word[k] by {
        assert(lower[at + k] == ascii_lower(error[at + k]));
    }
    assert(lower.subrange(at, at + word.len()) =~= word);
    assert(occurs_at(lower, word, at));
}

/// In whatever letters and wherever an error says that the connection was reset,
/// closed or broken, that the stream idled, stalled or timed out, or that what came
/// was cut off or could not be read, it counts as a stream that died away.
pub proof fn law_dead_streams_are_known(error: Seq<char>, word: Seq<char>, at: int)
    requires
        0 <= at <= error.len() - word.len(),
        forall|k: int| 0 <= k < word.len() ==> ascii_lower(#[trigger] error[at + k]) == word[k],
        word == "stream timed out"@ || word == "stream open timed out"@ || word == "before first event"@ || word
            == "before first byte"@ || word == "first provider response"@ || word == "first sse"@ || word == "idle"@
            || word == "stalled"@ || word == "connection closed"@ || word == "unexpected eof"@ || word
            == "incomplete"@ || word == "broken pipe"@ || word == "connection reset"@ || word == "body error"@ || word
            == "decode"@,
    ensures
        is_stale(ascii_lowered(error)),
{
    lemma_lowered_word(error, word, at);
}

/// Nothing else moves a request: an input that its state does not wait for changes
/// nothing and asks for nothing.
pub proof fn law_stray_inputs_change_nothing(
    ctx: RequestContext,
    before: StreamState,
    input: StreamInput,
    after: StreamState,
    actions: Seq<StreamAction>,
)
    requires
        is_step(ctx, before, input, after, actions),
        match before {
            StreamState::New => !(input is Begin),
            StreamState::Preparing => !(input is Prepared),
            StreamState::Announcing(_) => !(input is Announced),
            StreamState::Opening { .. } => !(input is Opened) && !(input is OpenFailed),
            StreamState::Draining(_) => !(input is Drained) && !(input is Cancelled) && !(input is BrokeOff),
            StreamState::FallingBack { .. } => !(input is Completed) && !(input is CompletionFailed),
            StreamState::Finished => true,
        },
    ensures
        state_of(after) == state_of(before),
        actions.len() == 0,
{
    assert(actions_of(actions).len() == actions.len());
}

/// Without a setting a stream has forty-five seconds to open; a number gives it so many,
/// and the words for no give it all the time.
pub proof fn law_opening_takes_as_long_as_set(n: nat)
    ensures
        open_timeout(None) == Some(45nat),
        open_timeout(Some("off"@)) is None,
        open_timeout(Some("0"@)) is None,
        open_timeout(Some("false"@)) is None,
        open_timeout(Some("disabled"@)) is None,
        0 < n <= u64::MAX ==> open_timeout(Some(decimal(n))) == Some(n),
{
    crate::numbers::law_written_numbers_are_read_back(n, u64::MAX as nat);
    reveal_strlit("off");
    reveal_strlit("false");
    reveal_strlit("disabled");
    crate::showing::lemma_decimal_is_digits(n);
    let d = decimal(n);
    assert('0' <= d[0] <= '9');
    reveal_strlit("0");
    assert(decimal(0) =~= "0"@);
    if d == "0"@ {
        crate::showing::law_numbers_are_told_apart(n, 0);
    }
    assert("off"@[0] == 'o' && "false"@[0] == 'f' && "disabled"@[0] == 'd');
}

/// The fallback is on unless it is switched off, in either of the two ways.
pub proof fn law_fallback_is_on_unless_switched_off(v: Seq<char>)
    ensures
        fallback_is_on(None, None),
        !fallback_is_on(Some("1"@), None),
        !fallback_is_on(Some("true"@), None),
        !fallback_is_on(Some("yes"@), None),
        !fallback_is_on(Some("on"@), None),
        !fallback_is_on(None, Some("0"@)),
        !fallback_is_on(None, Some("false"@)),
        !fallback_is_on(None, Some("no"@)),
        !fallback_is_on(None, Some("off"@)),
        v != "1"@ && v != "true"@ && v != "yes"@ && v != "on"@ ==> fallback_is_on(Some(v), None),
        v != "0"@ && v != "false"@ && v != "no"@ && v != "off"@ ==> fallback_is_on(None, Some(v)),
{
}

/// A refusal to think is told from a prompt that is too long, and both from every other
/// failure, by the words of the error alone.
pub proof fn law_failures_are_told_apart(lower: Seq<char>)
    ensures
        has_text(lower, "thinking"@) && has_text(lower, "not supported"@) ==> failure_of(lower) is ThinkingRefused,
        has_text(lower, "prompt is too long"@) && !has_text(lower, "thinking"@) && !has_text(
            lower,
            "adaptive thinking is not supported"@,
        ) ==> failure_of(lower) is PromptTooLong,
        has_text(lower, "context window"@) && !has_text(lower, "thinking"@) && !has_text(
            lower,
            "adaptive thinking is not supported"@,
        ) ==> failure_of(lower) is PromptTooLong,
        failure_of(lower) is PromptTooLong ==> has_text(lower, "prompt is too long"@) || has_text(
            lower,
            "prompt_too_long"@,
        ) || has_text(lower, "input length"@) || has_text(lower, "max_tokens"@) || has_text(lower, "context window"@),
{
}

/// A request falls back only where that is allowed, where the stream died of age, and
/// where no tool was owed.
pub proof fn law_requests_that_owe_a_tool_do_not_fall_back(ctx: RequestContext, p: Prepared, error: Seq<char>)
    ensures
        falls_back(ctx, p, error) ==> ctx.fallback_enabled,
        p.action_expected && p.advertised_tool_count > 0 ==> !falls_back(ctx, p, error),
        ctx.fallback_enabled && !p.action_expected && is_stale(ascii_lowered(error)) ==> falls_back(ctx, p, error),
        falls_back(ctx, p, error) ==> is_stale(ascii_lowered(error)),
{
}

} // verus!
