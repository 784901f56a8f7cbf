//! Agents that run in the background.
use vstd::prelude::*;

use crate::text::same_text;
use crate::time::Instant;
use crate::transcript::{ChatMessage, TaskLifecycle};

verus! {

/// Something that an agent did a while ago.
#[derive(Debug)]
pub struct RecentActivity {
    /// What kind of tool it was.
    pub label: String,
    pub display: String,
    pub elapsed_ms: u64,
}

/// Where an agent of a workflow stands.
#[derive(Debug, Clone, Copy, PartialEq, Eq, Structural)]
pub enum AgentStatus {
    Queued,
    Running,
    Done,
    Failed,
    Skipped,
}

/// One agent of a workflow.
#[derive(Debug)]
pub struct AgentProgress {
    pub index: usize,
    pub label: String,
    pub phase: Option<String>,
    pub status: AgentStatus,
}

/// How far a workflow has come.
#[derive(Debug)]
pub struct WorkflowProgress {
    pub name: String,
    pub status: String,
    pub cache_hits: u64,
    pub started_at: Instant,
    pub current_phase: Option<String>,
    pub agents: Vec<AgentProgress>,
    pub logs: Vec<String>,
}

/// An agent in the background.
#[derive(Debug)]
pub struct BackgroundTask {
    pub task_id: String,
    pub description: String,
    pub status: TaskLifecycle,
    pub started_at: Instant,
    pub completed_at: Option<Instant>,
    pub summary: Option<String>,
    pub error: Option<String>,
    pub last_tool: Option<String>,
    /// The last tool with what it works on.
    pub last_tool_info: Option<String>,
    pub recent_activities: Vec<RecentActivity>,
    pub messages: Vec<String>,
    pub chat_messages: Vec<ChatMessage>,
    pub tool_use_count: u64,
    pub latest_input_tokens: u64,
    pub latest_cache_read_tokens: u64,
    pub latest_cache_write_tokens: u64,
    pub cumulative_output_tokens: u64,
    pub model_used: Option<String>,
    /// The entry of the task list that the agent works on.
    pub parent_task_id: Option<String>,
    pub workflow_progress: Option<WorkflowProgress>,
    pub last_activity_at: Instant,
}

/// The sum, or the largest number where it is too large.
pub open spec fn capped_sum(a: nat, b: nat) -> nat {
    if a + b > u64::MAX {
        u64::MAX as nat
    } else {
        a + b
    }
}

/// Tokens that the agent has used: what its last request read, and all that it
/// has written.
pub open spec fn tokens_used(bt: BackgroundTask) -> nat {
    capped_sum(
        capped_sum(
            capped_sum(bt.latest_input_tokens as nat, bt.latest_cache_read_tokens as nat),
            bt.latest_cache_write_tokens as nat,
        ),
        bt.cumulative_output_tokens as nat,
    )
}

impl BackgroundTask {
    /// Tokens that the agent has used.
    pub fn total_tokens(&self) -> (r: u64)
        ensures
            r == tokens_used(*self),
    {
        self.latest_input_tokens.saturating_add(self.latest_cache_read_tokens).saturating_add(
            self.latest_cache_write_tokens,
        ).saturating_add(self.cumulative_output_tokens)
    }
}

/// The background agents and what is looked at.
#[derive(Debug)]
pub struct Fleet {
    pub tasks: Vec<BackgroundTask>,
    /// The agent whose stream is live.
    pub last_active: Option<String>,
    /// The agent whose transcript is open.
    pub viewing: Option<String>,
}

/// The position of the first agent with that id.
pub open spec fn agent_at(tasks: Seq<BackgroundTask>, id: Seq<char>, from: int) -> Option<int>
    decreases tasks.len() - from,
{
    if from < 0 || from >= tasks.len() {
        None
    } else if tasks[from].task_id@ == id {
        Some(from)
    } else {
        agent_at(tasks, id, from + 1)
    }
}

/// The agent with that id.
pub fn find_agent<'a>(tasks: &'a Vec<BackgroundTask>, id: &str) -> (r: Option<&'a BackgroundTask>)
    ensures
        match agent_at(tasks@, id@, 0) {
            Some(i) => 0 <= i < tasks@.len() && r == Some(&tasks@[i]),
            None => r is None,
        },
{
    let mut i: usize = 0;
    while i < tasks.len()
        invariant
            i <= tasks@.len(),
            agent_at(tasks@, id@, 0) == agent_at(tasks@, id@, i as int),
        decreases tasks@.len() - i,
    {
        if same_text(tasks[i].task_id.as_str(), id) {
            return Some(&tasks[i]);
        }
        i += 1;
    }
    None
}

/// How many agents are alive.
pub open spec fn alive_count(tasks: Seq<BackgroundTask>) -> nat
    decreases tasks.len(),
{
    if tasks.len() == 0 {
        0
    } else {
        alive_count(tasks.drop_last()) + if tasks.last().status.ended() {
            0nat
        } else {
            1nat
        }
    }
}

/// How many agents are alive.
pub fn count_alive(tasks: &Vec<BackgroundTask>) -> (r: usize)
    ensures
        r == alive_count(tasks@),
        r <= tasks@.len(),
{
    let mut n: usize = 0;
    let mut i: usize = 0;
    assert(tasks@.take(0) =~= Seq::<BackgroundTask>::empty());
    while i < tasks.len()
        invariant
            i <= tasks@.len(),
            n <= i,
            n == alive_count(tasks@.take(i as int)),
        decreases tasks@.len() - i,
    {
        assert(tasks@.take(i + 1).drop_last() =~= tasks@.take(i as int));
        if tasks[i].status.is_alive() {
            n += 1;
        }
        i += 1;
    }
    assert(tasks@.take(i as int) =~= tasks@);
    n
}

/// The task of an id is found wherever there is one, and it is the first.
pub proof fn law_agents_are_found(tasks: Seq<BackgroundTask>, k: int, from: int)
    requires
        0 <= from <= k < tasks.len(),
    ensures
        agent_at(tasks, tasks[k].task_id@, from) matches Some(i) && from <= i <= k && tasks[i].task_id@
            == tasks[k].task_id@,
    decreases k - from,
{
    if tasks[from].task_id@ != tasks[k].task_id@ {
        law_agents_are_found(tasks, k, from + 1);
    }
}

/// Every token counts, whether it was read, cached or written: where the sum fits, it
/// is the sum.
pub proof fn law_every_token_counts(bt: BackgroundTask)
    requires
        bt.latest_input_tokens + bt.latest_cache_read_tokens + bt.latest_cache_write_tokens
            + bt.cumulative_output_tokens <= u64::MAX,
    ensures
        tokens_used(bt) == bt.latest_input_tokens + bt.latest_cache_read_tokens + bt.latest_cache_write_tokens
            + bt.cumulative_output_tokens,
{
}

/// An agent that ends leaves the count of those alive, and no other does.
pub proof fn law_the_living_are_counted(tasks: Seq<BackgroundTask>, bt: BackgroundTask)
    ensures
        alive_count(tasks) <= tasks.len(),
        alive_count(tasks.push(bt)) == alive_count(tasks) + (if bt.status == TaskLifecycle::Completed || bt.status
            == TaskLifecycle::Failed || bt.status == TaskLifecycle::Cancelled {
            0nat
        } else {
            1nat
        }),
    decreases tasks.len(),
{
    assert(tasks.push(bt).drop_last() =~= tasks);
    if tasks.len() > 0 {
        law_the_living_are_counted(tasks.drop_last(), tasks.last());
        assert(tasks.drop_last().push(tasks.last()) =~= tasks);
    }
}

} // verus!
