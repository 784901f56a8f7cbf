//! The decisions of the event loop.
use vstd::prelude::*;

use crate::time::{Duration, Instant};
use crate::timeline::{is_recorded, App, FinishedRequest};

verus! {

// ── events ──────────────────────────────────────────────────────────────

/// Events of the user interface: input of the terminal, and the frame tick.
#[derive(Debug)]
pub enum UiEvent<T> {
    Term(T),
    Tick,
}

/// What the event loop handles: the user interface on one side, the engine on
/// the other.
#[derive(Debug)]
pub enum AppEvent<T, E> {
    Ui(UiEvent<T>),
    Engine(E),
}

impl<T, E> AppEvent<T, E> {
    /// The event is the frame tick.
    pub open spec fn ticks(self) -> bool {
        self matches AppEvent::Ui(UiEvent::Tick)
    }

    /// The event is input of the terminal.
    pub open spec fn is_input(self) -> bool {
        self matches AppEvent::Ui(UiEvent::Term(_))
    }

    pub fn is_tick(&self) -> (r: bool)
        ensures
            r == self.ticks(),
    {
        matches!(self, AppEvent::Ui(UiEvent::Tick))
    }

    pub fn is_terminal_input(&self) -> (r: bool)
        ensures
            r == self.is_input(),
    {
        matches!(self, AppEvent::Ui(UiEvent::Term(_)))
    }
}

/// The events that are input, or those that are not.
pub open spec fn only<T, E>(events: Seq<AppEvent<T, E>>, input: bool) -> Seq<AppEvent<T, E>>
    decreases events.len(),
{
    if events.len() == 0 {
        events
    } else if events.last().is_input() == input {
        only(events.drop_last(), input).push(events.last())
    } else {
        only(events.drop_last(), input)
    }
}

/// The input first, then the rest, each in the order in which it came.
pub open spec fn input_first<T, E>(events: Seq<AppEvent<T, E>>) -> Seq<AppEvent<T, E>> {
    only(events, true) + only(events, false)
}

proof fn lemma_only<T, E>(events: Seq<AppEvent<T, E>>, input: bool)
    ensures
        only(events, input).len() <= events.len(),
        only(events, true).len() + only(events, false).len() == events.len(),
        forall|i: int| 0 <= i < only(events, input).len() ==> (#[trigger] only(events, input)[i]).is_input() == input,
    decreases events.len(),
{
    if events.len() > 0 {
        lemma_only(events.drop_last(), input);
        let before = only(events.drop_last(), input);
        let after = only(events, input);
        assert forall|i: int| 0 <= i < after.len() implies (#[trigger] after[i]).is_input() == input by {
            if i < before.len() {
                assert(before[i].is_input() == input);
            }
        }
    }
}

/// Put the user's input in front of everything else in a burst.
pub fn prioritize_terminal_events<T, E>(events: &mut Vec<AppEvent<T, E>>)
    ensures
        final(events)@ == input_first(old(events)@),
{
    let mut rest: Vec<AppEvent<T, E>> = Vec::new();
    std::mem::swap(&mut rest, events);
    // The events are taken from the end, so they are turned round first.
    let ghost all = rest@;
    let mut turned: Vec<AppEvent<T, E>> = Vec::new();
    while rest.len() > 0
        invariant
            rest@.len() + turned@.len() == all.len(),
            rest@ == all.take(rest@.len() as int),
            forall|i: int| 0 <= i < turned@.len() ==> #[trigger] turned@[i] == all[all.len() - 1 - i],
        decreases rest@.len(),
    {
        let ghost n = rest@.len();
        if let Some(e) = rest.pop() {
            assert(rest@ =~= all.take(n - 1));
            turned.push(e);
        }
    }
    let mut input: Vec<AppEvent<T, E>> = Vec::new();
    let mut other: Vec<AppEvent<T, E>> = Vec::new();
    let ghost mut k: int = 0;
    assert(all.take(0) =~= Seq::empty());
    while turned.len() > 0
        invariant
            0 <= k <= all.len(),
            turned@.len() + k == all.len(),
            forall|i: int| 0 <= i < turned@.len() ==> #[trigger] turned@[i] == all[all.len() - 1 - i],
            input@ == only(all.take(k), true),
            other@ == only(all.take(k), false),
        decreases turned@.len(),
    {
        let ghost last = turned@[turned@.len() - 1];
        if let Some(e) = turned.pop() {
            assert(e == all[k]);
            assert(all.take(k + 1).drop_last() =~= all.take(k));
            if e.is_terminal_input() {
                input.push(e);
            } else {
                other.push(e);
            }
            proof {
                k = k + 1;
            }
        }
    }
    assert(all.take(k) =~= all);
    input.append(&mut other);
    *events = input;
}

/// Input stands before everything else.
pub proof fn law_input_comes_first<T, E>(events: Seq<AppEvent<T, E>>, i: int, j: int)
    requires
        0 <= i < j < input_first(events).len(),
        input_first(events)[j].is_input(),
    ensures
        input_first(events)[i].is_input(),
{
    lemma_only(events, true);
    lemma_only(events, false);
    let n = only(events, true).len();
    if i >= n {
        assert(input_first(events)[j] == only(events, false)[j - n]);
    }
}

/// No event is lost, and none is made up.
pub proof fn law_events_are_kept<T, E>(events: Seq<AppEvent<T, E>>)
    ensures
        input_first(events).len() == events.len(),
        input_first(events).to_multiset() == events.to_multiset(),
    decreases events.len(),
{
    lemma_only(events, true);
    broadcast use vstd::seq_lib::group_to_multiset_ensures;

    vstd::seq_lib::lemma_multiset_commutative(only(events, true), only(events, false));
    if events.len() > 0 {
        let front = events.drop_last();
        law_events_are_kept(front);
        vstd::seq_lib::lemma_multiset_commutative(only(front, true), only(front, false));
        assert(events =~= front.push(events.last()));
        if events.last().is_input() {
            assert(only(events, true) =~= only(front, true).push(events.last()));
        } else {
            assert(only(events, false) =~= only(front, false).push(events.last()));
        }
        assert(input_first(events).to_multiset() =~= events.to_multiset());
    } else {
        assert(input_first(events) =~= events);
    }
}

/// A burst without input is left as it is.
pub proof fn law_bursts_without_input_are_kept<T, E>(events: Seq<AppEvent<T, E>>)
    requires
        forall|i: int| 0 <= i < events.len() ==> !(#[trigger] events[i]).is_input(),
    ensures
        input_first(events) == events,
    decreases events.len(),
{
    if events.len() > 0 {
        let front = events.drop_last();
        assert forall|i: int| 0 <= i < front.len() implies !(#[trigger] front[i]).is_input() by {
            assert(front[i] == events[i]);
        }
        law_bursts_without_input_are_kept(front);
        lemma_only(front, true);
        lemma_only(front, false);
        assert(!events[events.len() - 1].is_input());
        assert(only(front, true).len() == 0) by {
            if only(front, true).len() > 0 {
                assert(input_first(front)[0] == only(front, true)[0]);
                assert(front[0] == input_first(front)[0]);
            }
        }
        assert(only(front, false) =~= front) by {
            assert(input_first(front) =~= only(front, false));
        }
        assert(input_first(events) =~= front.push(events.last()));
    } else {
        assert(input_first(events) =~= events);
    }
}

/// How many events are handled before the screen is drawn.
pub const BURST_CAP: usize = 256;

/// Whether a burst can take one more event.
pub fn burst_has_room(taken: usize) -> (r: bool)
    ensures
        r == (taken < BURST_CAP),
{
    taken < BURST_CAP
}

// ── drawing ─────────────────────────────────────────────────────────────

/// Least time between two frames, in milliseconds.
pub const FRAME_BUDGET_MS: u64 = 8;

/// When the screen was drawn last, and whether something still has to be.
#[derive(Debug, Clone, Copy, PartialEq, Eq, Structural)]
pub struct FrameGate {
    pub last_draw: Instant,
    pub pending_draw: bool,
}

/// What is running.
#[derive(Debug, Clone, Copy)]
pub struct ActivitySignals {
    pub is_streaming: bool,
    pub compacting: bool,
    pub tools_pending: bool,
    pub approval_pending: bool,
    pub approvals_queued: bool,
    pub background_alive: bool,
    pub turn_started: bool,
}

/// Something on the screen moves.
pub open spec fn is_moving(a: ActivitySignals) -> bool {
    a.is_streaming || a.compacting || a.tools_pending || a.approval_pending || a.approvals_queued
        || a.background_alive || a.turn_started
}

/// Whether something on the screen moves: then the cursor is a steady block, and
/// every tick draws.
pub fn wants_streaming_cursor(a: ActivitySignals) -> (r: bool)
    ensures
        r == is_moving(a),
{
    a.is_streaming || a.compacting || a.tools_pending || a.approval_pending || a.approvals_queued
        || a.background_alive || a.turn_started
}

/// A frame is drawn now: something changed, and the user typed or enough time
/// has passed.
pub open spec fn draws_now(g: FrameGate, changed: bool, typed: bool, now: Instant) -> bool {
    (g.pending_draw || changed) && (typed || now.since(g.last_draw) >= FRAME_BUDGET_MS * 1_000_000)
}

/// What is remembered of the drawing once a burst is over.
pub open spec fn gate_after(g: FrameGate, changed: bool, typed: bool, now: Instant) -> FrameGate {
    if draws_now(g, changed, typed, now) {
        FrameGate { last_draw: now, pending_draw: false }
    } else {
        FrameGate { last_draw: g.last_draw, pending_draw: g.pending_draw || changed }
    }
}

impl FrameGate {
    pub fn new(now: Instant) -> (r: Self)
        ensures
            r == (FrameGate { last_draw: now, pending_draw: false }),
    {
        FrameGate { last_draw: now, pending_draw: false }
    }

    /// Decide whether to draw after a burst that changed something or not. What
    /// is not drawn now stays pending.
    pub fn decide(&mut self, changed: bool, typed: bool, now: Instant) -> (r: bool)
        ensures
            r == draws_now(*old(self), changed, typed, now),
            *final(self) == gate_after(*old(self), changed, typed, now),
    {
        let needs_draw = self.pending_draw || changed;
        let budget = Duration::from_millis(FRAME_BUDGET_MS);
        if needs_draw && (typed || !now.duration_since(self.last_draw).is_shorter_than(&budget)) {
            self.last_draw = now;
            self.pending_draw = false;
            true
        } else {
            self.pending_draw = needs_draw;
            false
        }
    }
}

/// A change is never forgotten: it is drawn, or it stays pending.
pub proof fn law_changes_are_drawn(g: FrameGate, typed: bool, now: Instant)
    ensures
        draws_now(g, true, typed, now) || gate_after(g, true, typed, now).pending_draw,
{
}

/// What the user types shows at once.
pub proof fn law_typing_shows_at_once(g: FrameGate, now: Instant)
    ensures
        draws_now(g, true, true, now),
{
}

/// Frames keep their distance, unless the user types.
pub proof fn law_frames_keep_their_distance(g: FrameGate, changed: bool, now: Instant)
    requires
        draws_now(g, changed, false, now),
    ensures
        now.since(g.last_draw) >= FRAME_BUDGET_MS * 1_000_000,
{
}

// ── sharing the session ─────────────────────────────────────────────────

/// What clients of a shared session see of its state.
#[derive(Debug, Clone, Copy, PartialEq, Eq, Structural)]
pub enum SessionState {
    Running,
    WaitingApproval,
    Idle,
}

/// The state of the session: running comes before waiting.
pub fn session_state(is_streaming: bool, approval_pending: bool) -> (r: SessionState)
    ensures
        r == (if is_streaming {
            SessionState::Running
        } else if approval_pending {
            SessionState::WaitingApproval
        } else {
            SessionState::Idle
        }),
{
    if is_streaming {
        SessionState::Running
    } else if approval_pending {
        SessionState::WaitingApproval
    } else {
        SessionState::Idle
    }
}

// ── effects ─────────────────────────────────────────────────────────────

/// A rewrite of the prompt that the user is asked about.
#[derive(Debug)]
pub struct PromptRewriteProposal {
    pub original: String,
    pub rewrite: String,
    pub rationale: String,
    pub original_intent: String,
}

/// What the engine did that the view has to follow.
#[derive(Debug)]
pub enum EngineEffect {
    TranscriptAppended,
    StreamingFinalized,
    ScrollToBottom,
    ToolOutputArrived,
    SessionSwitched,
    ModelsRefreshed,
    PromptRewriteProposed(PromptRewriteProposal),
}

/// The state of the view.
#[derive(Debug)]
pub struct ViewState {
    pub follow_bottom: bool,
    /// The user is dragging a selection.
    pub selecting: bool,
    pub path_yank_cursor: usize,
    pub task_panel_selected: usize,
    pub task_panel_detail: bool,
    pub viewing_task: bool,
    pub show_model_picker: bool,
    pub pending_rewrite_proposal: Option<PromptRewriteProposal>,
}

/// What is left to do for an effect.
#[derive(Debug, Clone, Copy, PartialEq, Eq, Structural)]
pub struct ViewActions {
    pub scroll_to_bottom: bool,
    pub clear_streaming_cache: bool,
    pub clear_expanded_parts: bool,
    pub recompute_tokens: bool,
    pub clear_model_query: bool,
    pub reload_model_picker: bool,
}

/// Nothing to do.
pub open spec fn no_actions() -> ViewActions {
    ViewActions {
        scroll_to_bottom: false,
        clear_streaming_cache: false,
        clear_expanded_parts: false,
        recompute_tokens: false,
        clear_model_query: false,
        reload_model_picker: false,
    }
}

fn nothing() -> (r: ViewActions)
    ensures
        r == no_actions(),
{
    ViewActions {
        scroll_to_bottom: false,
        clear_streaming_cache: false,
        clear_expanded_parts: false,
        recompute_tokens: false,
        clear_model_query: false,
        reload_model_picker: false,
    }
}

/// What an effect asks for.
pub open spec fn actions_for(view: ViewState, effect: EngineEffect) -> ViewActions {
    match effect {
        EngineEffect::TranscriptAppended => ViewActions {
            scroll_to_bottom: view.follow_bottom && !view.selecting,
            ..no_actions()
        },
        EngineEffect::StreamingFinalized => ViewActions {
            clear_streaming_cache: true,
            ..no_actions()
        },
        EngineEffect::ScrollToBottom => ViewActions { scroll_to_bottom: true, ..no_actions() },
        EngineEffect::SessionSwitched => ViewActions {
            clear_expanded_parts: true,
            recompute_tokens: true,
            ..no_actions()
        },
        EngineEffect::ModelsRefreshed => ViewActions {
            clear_model_query: true,
            reload_model_picker: view.show_model_picker,
            ..no_actions()
        },
        EngineEffect::ToolOutputArrived | EngineEffect::PromptRewriteProposed(_) => no_actions(),
    }
}

/// The view after an effect.
pub open spec fn view_after(view: ViewState, effect: EngineEffect) -> ViewState {
    match effect {
        EngineEffect::ToolOutputArrived => ViewState { path_yank_cursor: 0, ..view },
        EngineEffect::SessionSwitched => ViewState {
            task_panel_selected: 0,
            task_panel_detail: false,
            viewing_task: false,
            ..view
        },
        EngineEffect::PromptRewriteProposed(p) => ViewState { pending_rewrite_proposal: Some(p), ..view },
        _ => view,
    }
}

/// The timeline after an effect: a finished stream is recorded, and the requests
/// of a session that was left are forgotten.
pub open spec fn timeline_follows(after: App, before: App, effect: EngineEffect, request: FinishedRequest) -> bool {
    match effect {
        EngineEffect::StreamingFinalized => is_recorded(
            after,
            before,
            request.usage@,
            request.total_cost,
            request.facts,
        ),
        EngineEffect::SessionSwitched => after.is_fresh(),
        _ => after == before,
    }
}

/// Follow one effect of the engine: change the view and the timeline, and tell
/// what else is to be done. `request` is the one that ended last. The view stays
/// where it is while the user selects text, and a rewrite is only proposed, never
/// applied.
pub fn apply_engine_effect(
    view: &mut ViewState,
    timeline: &mut App,
    effect: EngineEffect,
    request: FinishedRequest,
) -> (r: ViewActions)
    ensures
        r == actions_for(*old(view), effect),
        *final(view) == view_after(*old(view), effect),
        timeline_follows(*final(timeline), *old(timeline), effect, request),
{
    let none = nothing();
    match effect {
        EngineEffect::TranscriptAppended => ViewActions {
            scroll_to_bottom: view.follow_bottom && !view.selecting,
            ..none
        },
        EngineEffect::StreamingFinalized => {
            timeline.record_timeline_sample(request.usage.as_slice(), request.total_cost, request.facts);
            ViewActions { clear_streaming_cache: true, ..none }
        },
        EngineEffect::ScrollToBottom => ViewActions { scroll_to_bottom: true, ..none },
        EngineEffect::ToolOutputArrived => {
            view.path_yank_cursor = 0;
            none
        },
        EngineEffect::SessionSwitched => {
            view.task_panel_selected = 0;
            view.task_panel_detail = false;
            view.viewing_task = false;
            timeline.reset_timeline();
            ViewActions { clear_expanded_parts: true, recompute_tokens: true, ..none }
        },
        EngineEffect::ModelsRefreshed => ViewActions {
            clear_model_query: true,
            reload_model_picker: view.show_model_picker,
            ..none
        },
        EngineEffect::PromptRewriteProposed(p) => {
            view.pending_rewrite_proposal = Some(p);
            none
        },
    }
}

/// A finished stream with new usage leaves exactly one sample more, and hearing of
/// its end a second time leaves none.
pub proof fn law_finished_streams_are_recorded_once(
    before: App,
    first: App,
    second: App,
    request: FinishedRequest,
    again: FinishedRequest,
)
    requires
        timeline_follows(first, before, EngineEffect::StreamingFinalized, request),
        timeline_follows(second, first, EngineEffect::StreamingFinalized, again),
        again.usage@ == request.usage@,
        again.total_cost == request.total_cost,
        !crate::timeline::is_idle(
            crate::timeline::counted(request.usage@, request.total_cost),
            before.timeline_baseline,
        ),
    ensures
        first.timeline@.drop_last() == crate::timeline::kept_samples(before.timeline@),
        first.timeline@.len() == crate::timeline::kept_samples(before.timeline@).len() + 1,
        second.timeline@ == first.timeline@,
{
    crate::timeline::law_requests_are_recorded_once(
        before,
        first,
        second,
        request.usage@,
        request.total_cost,
        request.facts,
        again.facts,
    );
}

/// An answer that arrives makes the session running, whatever waits; an approval that
/// waits makes it waiting otherwise.
pub proof fn law_running_comes_before_waiting(is_streaming: bool, approval_pending: bool, r: SessionState)
    requires
        call_ensures(session_state, (is_streaming, approval_pending), r),
    ensures
        is_streaming ==> r is Running,
        !is_streaming && approval_pending ==> r is WaitingApproval,
        !is_streaming && !approval_pending ==> r is Idle,
{
}

/// The transcript rolls to its end when something is added only while it follows and
/// nothing is being selected; when it is told to, always.
pub proof fn law_reading_is_not_disturbed(view: ViewState)
    ensures
        !view.follow_bottom || view.selecting ==> !actions_for(view, EngineEffect::TranscriptAppended).scroll_to_bottom,
        view.follow_bottom && !view.selecting ==> actions_for(view, EngineEffect::TranscriptAppended).scroll_to_bottom,
        actions_for(view, EngineEffect::ScrollToBottom).scroll_to_bottom,
        !actions_for(view, EngineEffect::ToolOutputArrived).scroll_to_bottom,
{
}

/// A session that was switched to begins with its panels closed and its tokens counted
/// anew; a proposal waits until it is answered.
pub proof fn law_effects_reach_the_view(view: ViewState, p: PromptRewriteProposal)
    ensures
        view_after(view, EngineEffect::SessionSwitched).task_panel_selected == 0,
        !view_after(view, EngineEffect::SessionSwitched).task_panel_detail,
        !view_after(view, EngineEffect::SessionSwitched).viewing_task,
        actions_for(view, EngineEffect::SessionSwitched).recompute_tokens,
        actions_for(view, EngineEffect::SessionSwitched).clear_expanded_parts,
        actions_for(view, EngineEffect::StreamingFinalized).clear_streaming_cache,
        view_after(view, EngineEffect::PromptRewriteProposed(p)).pending_rewrite_proposal == Some(p),
        view_after(view, EngineEffect::ToolOutputArrived).path_yank_cursor == 0,
        view_after(view, EngineEffect::TranscriptAppended) == view,
        actions_for(view, EngineEffect::ModelsRefreshed).reload_model_picker == view.show_model_picker,
{
}

/// Anything that goes on moves the screen, and without anything it stands still.
pub proof fn law_work_moves_the_screen(a: ActivitySignals, r: bool)
    requires
        call_ensures(wants_streaming_cursor, (a,), r),
    ensures
        a.is_streaming ==> r,
        a.compacting ==> r,
        a.tools_pending ==> r,
        a.approval_pending ==> r,
        a.approvals_queued ==> r,
        a.background_alive ==> r,
        a.turn_started ==> r,
        !a.is_streaming && !a.compacting && !a.tools_pending && !a.approval_pending && !a.approvals_queued
            && !a.background_alive && !a.turn_started ==> !r,
{
}

/// A burst takes up to 256 events, and no more.
pub proof fn law_bursts_are_bounded(taken: usize, r: bool)
    requires
        call_ensures(burst_has_room, (taken,), r),
    ensures
        taken < 256 ==> r,
        taken >= 256 ==> !r,
{
}

} // verus!
