//! What the usage dashboard shows of the session.
use vstd::prelude::*;

use crate::order::{rank_order, sort_stable, sorted, Ranked};
use crate::sidebar::ContextBudget;

verus! {

/// The use of one model. Money is counted in billionths of a dollar.
#[derive(Debug, Clone)]
pub struct ModelUsageRow {
    pub model: String,
    pub input_tokens: u64,
    pub output_tokens: u64,
    pub cache_read_tokens: u64,
    pub cache_write_tokens: u64,
    pub thinking_tokens: u64,
    pub cost: u64,
}

impl Ranked for ModelUsageRow {
    open spec fn before(&self, other: &Self) -> bool {
        self.cost > other.cost
    }

    fn is_before(&self, other: &Self) -> (r: bool) {
        self.cost > other.cost
    }
}

/// A phase of the program that was timed.
#[derive(Debug, Clone)]
pub struct ProfilePhase {
    pub name: String,
    pub nanos: u64,
    pub spans: u64,
    pub bytes: u64,
    pub items: u64,
}

impl Ranked for ProfilePhase {
    open spec fn before(&self, other: &Self) -> bool {
        self.nanos > other.nanos
    }

    fn is_before(&self, other: &Self) -> (r: bool) {
        self.nanos > other.nanos
    }
}

/// What is known of the session.
#[derive(Debug)]
pub struct SessionFacts {
    pub generated_at_unix: u64,
    pub session_id: Option<String>,
    pub model: String,
    pub context_window_tokens: u64,
    pub context_used_tokens: u64,
    /// The budget of the request that is running.
    pub running_budget: Option<ContextBudget>,
    /// The budget of the last request.
    pub last_budget: Option<ContextBudget>,
    pub last_system_prompt_len: Option<usize>,
    /// Counts of the request that is running.
    pub running_rsi: Option<(u64, u64)>,
    pub total_cost: u64,
}

/// What the dashboard shows of the session.
#[derive(Debug)]
pub struct DashboardSnapshot {
    pub generated_at_unix: u64,
    pub session_id: Option<String>,
    pub model: Option<String>,
    pub context_window_tokens: u64,
    pub context_used_tokens: u64,
    pub budget: Option<ContextBudget>,
    pub system_fallback_tokens: u64,
    pub usage_by_model: Vec<ModelUsageRow>,
    pub total_cost: u64,
    pub rsi_prompt_sections: u64,
    pub rsi_tool_visibility_rules: u64,
    pub profile: Vec<ProfilePhase>,
}

/// The budget that counts: that of the running request, else the last one.
pub open spec fn budget_shown(f: SessionFacts) -> Option<ContextBudget> {
    if f.running_budget is Some {
        f.running_budget
    } else {
        f.last_budget
    }
}

/// Put the session's state together for the dashboard. The dearest models and
/// the longest phases come first.
pub fn build_snapshot(facts: SessionFacts, usage: Vec<ModelUsageRow>, phases: Vec<ProfilePhase>) -> (r: DashboardSnapshot)
    ensures
        r.generated_at_unix == facts.generated_at_unix,
        r.session_id == facts.session_id,
        r.model == Some(facts.model),
        r.context_window_tokens == facts.context_window_tokens,
        r.context_used_tokens == facts.context_used_tokens,
        r.budget == budget_shown(facts),
        r.system_fallback_tokens == (match facts.last_system_prompt_len {
            Some(n) => n as u64,
            None => 0,
        }),
        r.usage_by_model@ == sorted(usage@, rank_order::<ModelUsageRow>()),
        r.total_cost == facts.total_cost,
        (r.rsi_prompt_sections, r.rsi_tool_visibility_rules) == (match facts.running_rsi {
            Some(counts) => counts,
            None => (0, 0),
        }),
        r.profile@ == sorted(phases@, rank_order::<ProfilePhase>()),
{
    let budget = match facts.running_budget {
        Some(b) => Some(b),
        None => facts.last_budget,
    };
    let (rsi_prompt_sections, rsi_tool_visibility_rules): (u64, u64) = match facts.running_rsi {
        Some(counts) => counts,
        None => (0, 0),
    };
    DashboardSnapshot {
        generated_at_unix: facts.generated_at_unix,
        session_id: facts.session_id,
        model: Some(facts.model),
        context_window_tokens: facts.context_window_tokens,
        context_used_tokens: facts.context_used_tokens,
        budget,
        system_fallback_tokens: match facts.last_system_prompt_len {
            Some(n) => n as u64,
            None => 0,
        },
        usage_by_model: sort_stable(usage),
        total_cost: facts.total_cost,
        rsi_prompt_sections,
        rsi_tool_visibility_rules,
        profile: sort_stable(phases),
    }
}

/// The dearest model comes first.
pub proof fn law_dearest_first(usage: Seq<ModelUsageRow>, i: int, j: int)
    requires
        0 <= i < j < usage.len(),
    ensures
        sorted(usage, rank_order::<ModelUsageRow>())[i].cost >= sorted(usage, rank_order::<ModelUsageRow>())[j].cost,
{
    let before = rank_order::<ModelUsageRow>();
    assert(crate::order::is_weak_order(before));
    crate::order::law_sorted_is_in_order(usage, before);
    crate::order::law_sorted_is_a_permutation(usage, before);
    assert(!before(sorted(usage, before)[j], sorted(usage, before)[i]));
}

/// The slowest phase comes first; no phase and no model is lost.
pub proof fn law_slowest_first(phases: Seq<ProfilePhase>, usage: Seq<ModelUsageRow>, i: int, j: int)
    requires
        0 <= i < j < phases.len(),
    ensures
        sorted(phases, rank_order::<ProfilePhase>())[i].nanos >= sorted(phases, rank_order::<ProfilePhase>())[j].nanos,
        sorted(phases, rank_order::<ProfilePhase>()).to_multiset() == phases.to_multiset(),
        sorted(usage, rank_order::<ModelUsageRow>()).to_multiset() == usage.to_multiset(),
{
    let before = rank_order::<ProfilePhase>();
    assert(crate::order::is_weak_order(before));
    crate::order::law_sorted_is_in_order(phases, before);
    crate::order::law_sorted_is_a_permutation(phases, before);
    crate::order::law_sorted_is_a_permutation(usage, rank_order::<ModelUsageRow>());
    assert(!before(sorted(phases, before)[j], sorted(phases, before)[i]));
}

/// The budget of the request that is running is shown, whatever the last one was; where
/// none is running, the last one stays in sight.
pub proof fn law_running_budget_is_shown(f: SessionFacts, last: Option<ContextBudget>)
    requires
        f.running_budget is Some,
    ensures
        budget_shown(f) == f.running_budget,
        budget_shown(SessionFacts { last_budget: last, ..f }) == budget_shown(f),
        budget_shown(SessionFacts { running_budget: None, last_budget: last, ..f }) == last,
{
}

} // verus!
