//! The task list: what is open, what comes next, and the short list that is
//! pinned above the input.
use vstd::prelude::*;

use crate::slicing::{group_texts, opt_text, repeat, repeated};
use crate::styled::group_rows;
use crate::text::{cat2, same_text};

verus! {

broadcast use {group_texts, group_rows};

/// Where a task stands.
#[derive(Debug, Clone, Copy, PartialEq, Eq, Structural)]
pub enum TaskStatus {
    Pending,
    InProgress,
    Blocked,
    Completed,
    Cancelled,
}

impl TaskStatus {
    /// There is still something to do.
    pub open spec fn open(self) -> bool {
        self == TaskStatus::Pending || self == TaskStatus::InProgress || self == TaskStatus::Blocked
    }

    pub fn is_open(self) -> (r: bool)
        ensures
            r == self.open(),
    {
        matches!(self, TaskStatus::Pending | TaskStatus::InProgress | TaskStatus::Blocked)
    }

    /// The sign in front of a task.
    pub open spec fn sign(self) -> Seq<char> {
        match self {
            TaskStatus::Pending | TaskStatus::Blocked => "□"@,
            TaskStatus::InProgress => "■"@,
            TaskStatus::Completed => "✓"@,
            TaskStatus::Cancelled => "✗"@,
        }
    }

    pub fn glyph(self) -> (r: &'static str)
        ensures
            r@ == self.sign(),
    {
        match self {
            TaskStatus::Pending | TaskStatus::Blocked => "□",
            TaskStatus::InProgress => "■",
            TaskStatus::Completed => "✓",
            TaskStatus::Cancelled => "✗",
        }
    }
}

/// One task.
#[derive(Debug)]
pub struct Task {
    pub id: String,
    pub subject: String,
    pub description: String,
    pub status: TaskStatus,
    /// What doing the task is called.
    pub active_form: Option<String>,
    pub owner: Option<String>,
    pub parent_id: Option<String>,
    /// The tasks that have to be done before this one.
    pub blocked_by: Vec<String>,
    /// The model that the task asks for.
    pub model: Option<String>,
}

// ── what comes next ─────────────────────────────────────────────────────

/// The first task at or after `from` that `wanted` holds of.
pub open spec fn first_where(tasks: Seq<Task>, wanted: spec_fn(Task) -> bool, from: int) -> Option<int>
    decreases tasks.len() - from,
{
    if from < 0 || from >= tasks.len() {
        None
    } else if wanted(tasks[from]) {
        Some(from)
    } else {
        first_where(tasks, wanted, from + 1)
    }
}

/// A task that is being worked on.
pub open spec fn is_running() -> spec_fn(Task) -> bool {
    |t: Task| t.status == TaskStatus::InProgress
}

/// A task that is open.
pub open spec fn is_unfinished() -> spec_fn(Task) -> bool {
    |t: Task| t.status.open()
}

/// The task to name next: the first one being worked on, else the first open
/// one.
pub open spec fn next_open(tasks: Seq<Task>) -> Option<int> {
    match first_where(tasks, is_running(), 0) {
        Some(i) => Some(i),
        None => first_where(tasks, is_unfinished(), 0),
    }
}

fn first_running(tasks: &Vec<Task>) -> (r: Option<usize>)
    ensures
        match r {
            Some(i) => first_where(tasks@, is_running(), 0) == Some(i as int) && i < tasks@.len(),
            None => first_where(tasks@, is_running(), 0) is None,
        },
{
    let mut i: usize = 0;
    while i < tasks.len()
        invariant
            i <= tasks@.len(),
            first_where(tasks@, is_running(), 0) == first_where(tasks@, is_running(), i as int),
        decreases tasks@.len() - i,
    {
        if tasks[i].status == TaskStatus::InProgress {
            return Some(i);
        }
        i += 1;
    }
    None
}

fn first_unfinished(tasks: &Vec<Task>) -> (r: Option<usize>)
    ensures
        match r {
            Some(i) => first_where(tasks@, is_unfinished(), 0) == Some(i as int) && i < tasks@.len(),
            None => first_where(tasks@, is_unfinished(), 0) is None,
        },
{
    let mut i: usize = 0;
    while i < tasks.len()
        invariant
            i <= tasks@.len(),
            first_where(tasks@, is_unfinished(), 0) == first_where(tasks@, is_unfinished(), i as int),
        decreases tasks@.len() - i,
    {
        if tasks[i].status.is_open() {
            return Some(i);
        }
        i += 1;
    }
    None
}

/// The task to name next: one that is being worked on comes before one that
/// waits. Nothing where no task is open.
pub fn pick_next_open_task(tasks: &Vec<Task>) -> (r: Option<&Task>)
    ensures
        match next_open(tasks@) {
            Some(i) => r == Some(&tasks@[i]),
            None => r is None,
        },
{
    match first_running(tasks) {
        Some(i) => Some(&tasks[i]),
        None => match first_unfinished(tasks) {
            Some(i) => Some(&tasks[i]),
            None => None,
        },
    }
}

proof fn lemma_first_where(tasks: Seq<Task>, wanted: spec_fn(Task) -> bool, from: int)
    requires
        0 <= from <= tasks.len(),
    ensures
        match first_where(tasks, wanted, from) {
            Some(i) => from <= i < tasks.len() && wanted(tasks[i]) && forall|j: int|
                from <= j < i ==> !wanted(#[trigger] tasks[j]),
            None => forall|j: int| from <= j < tasks.len() ==> !wanted(#[trigger] tasks[j]),
        },
    decreases tasks.len() - from,
{
    if from < tasks.len() && !wanted(tasks[from]) {
        lemma_first_where(tasks, wanted, from + 1);
    }
}

/// What is named next is open; where anything is being worked on, it is that;
/// and nothing is named only where nothing is open.
pub proof fn law_next_task(tasks: Seq<Task>)
    ensures
        match next_open(tasks) {
            Some(i) => 0 <= i < tasks.len() && tasks[i].status.open() && ((exists|j: int|
                0 <= j < tasks.len() && (#[trigger] tasks[j]).status == TaskStatus::InProgress)
                ==> tasks[i].status == TaskStatus::InProgress),
            None => forall|j: int| 0 <= j < tasks.len() ==> !(#[trigger] tasks[j]).status.open(),
        },
{
    lemma_first_where(tasks, is_running(), 0);
    lemma_first_where(tasks, is_unfinished(), 0);
}

// ── the tree of tasks ───────────────────────────────────────────────────

/// Task `j` stands directly below the task with that id.
pub open spec fn is_child(tasks: Seq<Task>, j: int, id: Seq<char>) -> bool {
    0 <= j < tasks.len() && opt_text(tasks[j].parent_id) == Some(id)
}

/// Task `i` at `depth` and what stands below it, in the order of the list. A
/// depth is at most 255.
pub open spec fn subtree(tasks: Seq<Task>, i: int, depth: nat) -> Seq<(int, nat)>
    decreases 257 - depth, 0nat,
{
    if depth >= 256 {
        Seq::empty()
    } else {
        seq![(i, depth)] + below(tasks, tasks[i].id@, tasks.len(), depth + 1)
    }
}

/// What stands below the task with that id, as far as the first `n` tasks go.
pub open spec fn below(tasks: Seq<Task>, id: Seq<char>, n: nat, depth: nat) -> Seq<(int, nat)>
    decreases 257 - depth, n + 1,
{
    if n == 0 {
        Seq::empty()
    } else if is_child(tasks, n - 1, id) {
        below(tasks, id, (n - 1) as nat, depth) + subtree(tasks, n - 1, depth)
    } else {
        below(tasks, id, (n - 1) as nat, depth)
    }
}

/// The tasks without a parent among the first `n`, each with what stands below
/// it.
pub open spec fn forest(tasks: Seq<Task>, n: nat) -> Seq<(int, nat)>
    decreases n,
{
    if n == 0 {
        Seq::empty()
    } else if tasks[n - 1].parent_id is None {
        forest(tasks, (n - 1) as nat) + subtree(tasks, n - 1, 0)
    } else {
        forest(tasks, (n - 1) as nat)
    }
}

/// Nothing below task `i` lies deeper than 255.
pub open spec fn depth_fits(tasks: Seq<Task>, i: int, depth: nat) -> bool
    decreases 256 - depth,
{
    if depth >= 256 {
        false
    } else {
        forall|j: int| #[trigger] is_child(tasks, j, tasks[i].id@) ==> depth_fits(tasks, j, depth + 1)
    }
}

/// The positions and depths of a listing.
pub open spec fn placements(v: Seq<(usize, u8)>) -> Seq<(int, nat)> {
    v.map_values(|p: (usize, u8)| (p.0 as int, p.1 as nat))
}

proof fn lemma_placements_push(v: Seq<(usize, u8)>, p: (usize, u8))
    ensures
        placements(v.push(p)) == placements(v).push((p.0 as int, p.1 as nat)),
{
    assert(placements(v.push(p)) =~= placements(v).push((p.0 as int, p.1 as nat)));
}

fn push_subtree(tasks: &Vec<Task>, i: usize, depth: u8, out: &mut Vec<(usize, u8)>)
    requires
        i < tasks@.len(),
        depth_fits(tasks@, i as int, depth as nat),
    ensures
        placements(final(out)@) == placements(old(out)@) + subtree(tasks@, i as int, depth as nat),
    decreases 256 - depth,
{
    let ghost before = placements(out@);
    out.push((i, depth));
    proof {
        lemma_placements_push(old(out)@, (i, depth));
    }
    let id = tasks[i].id.as_str();
    let mut j: usize = 0;
    assert(placements(out@) =~= before + (seq![(i as int, depth as nat)] + below(
        tasks@,
        id@,
        0,
        (depth + 1) as nat,
    )));
    while j < tasks.len()
        invariant
            i < tasks@.len(),
            id@ == tasks@[i as int].id@,
            depth_fits(tasks@, i as int, depth as nat),
            j <= tasks@.len(),
            placements(out@) == before + (seq![(i as int, depth as nat)] + below(
                tasks@,
                id@,
                j as nat,
                (depth + 1) as nat,
            )),
        decreases tasks@.len() - j,
    {
        let ours = match &tasks[j].parent_id {
            Some(p) => same_text(p.as_str(), id),
            None => false,
        };
        assert(ours == is_child(tasks@, j as int, id@));
        if ours {
            assert(depth_fits(tasks@, j as int, (depth + 1) as nat));
            let ghost mid = placements(out@);
            push_subtree(tasks, j, depth + 1, out);
            let ghost more = subtree(tasks@, j as int, (depth + 1) as nat);
            let ghost so_far = below(tasks@, id@, j as nat, (depth + 1) as nat);
            assert(mid + more =~= before + (seq![(i as int, depth as nat)] + (so_far + more)));
        }
        j += 1;
    }
}

fn push_forest(tasks: &Vec<Task>, out: &mut Vec<(usize, u8)>)
    requires
        forall|i: int|
            0 <= i < tasks@.len() && (#[trigger] tasks@[i]).parent_id is None ==> depth_fits(tasks@, i, 0),
        old(out)@.len() == 0,
    ensures
        placements(final(out)@) == forest(tasks@, tasks@.len()),
{
    let mut i: usize = 0;
    assert(placements(out@) =~= forest(tasks@, 0));
    while i < tasks.len()
        invariant
            i <= tasks@.len(),
            forall|i: int|
                0 <= i < tasks@.len() && (#[trigger] tasks@[i]).parent_id is None ==> depth_fits(
                    tasks@,
                    i,
                    0,
                ),
            placements(out@) == forest(tasks@, i as nat),
        decreases tasks@.len() - i,
    {
        if tasks[i].parent_id.is_none() {
            push_subtree(tasks, i, 0, out);
        }
        i += 1;
    }
}

/// The tasks in the order of their tree, each with its depth: a task without a
/// parent has depth 0, and what stands below a task follows it.
pub fn tree_order(tasks: &Vec<Task>) -> (r: Vec<(usize, u8)>)
    requires
        forall|i: int|
            0 <= i < tasks@.len() && (#[trigger] tasks@[i]).parent_id is None ==> depth_fits(tasks@, i, 0),
    ensures
        placements(r@) == forest(tasks@, tasks@.len()),
{
    let mut out: Vec<(usize, u8)> = Vec::new();
    push_forest(tasks, &mut out);
    out
}

/// Where there is no nesting, the tree is the list.
pub proof fn law_flat_tree_is_the_list(tasks: Seq<Task>, n: nat)
    requires
        n <= tasks.len(),
        forall|i: int| 0 <= i < tasks.len() ==> (#[trigger] tasks[i]).parent_id is None,
    ensures
        forest(tasks, n) == Seq::new(n, |i: int| (i, 0nat)),
    decreases n,
{
    if n > 0 {
        law_flat_tree_is_the_list(tasks, (n - 1) as nat);
        lemma_no_children(tasks, tasks[n - 1].id@, tasks.len(), 1);
        assert(forest(tasks, n) =~= Seq::new(n, |i: int| (i, 0nat)));
    } else {
        assert(forest(tasks, n) =~= Seq::new(n, |i: int| (i, 0nat)));
    }
}

proof fn lemma_no_children(tasks: Seq<Task>, id: Seq<char>, n: nat, depth: nat)
    requires
        n <= tasks.len(),
        forall|i: int| 0 <= i < tasks.len() ==> (#[trigger] tasks[i]).parent_id is None,
    ensures
        below(tasks, id, n, depth) == Seq::<(int, nat)>::empty(),
    decreases n,
{
    if n > 0 {
        lemma_no_children(tasks, id, (n - 1) as nat, depth);
        assert(tasks[n - 1].parent_id is None);
    }
}

/// What stands in front of a task at that depth.
pub open spec fn branch(depth: nat) -> Seq<char> {
    if depth == 0 {
        Seq::empty()
    } else {
        repeated("  "@, (depth - 1) as nat) + "├ "@
    }
}

/// What stands in front of a task at that depth.
pub fn tree_prefix(depth: u8) -> (r: String)
    ensures
        r@ == branch(depth as nat),
{
    if depth == 0 {
        String::new()
    } else {
        cat2(repeat("  ", (depth - 1) as usize).as_str(), "├ ")
    }
}

proof fn lemma_below_has(tasks: Seq<Task>, id: Seq<char>, n: nat, depth: nat, j: int)
    requires
        0 <= j < n <= tasks.len(),
        is_child(tasks, j, id),
        depth < 256,
    ensures
        below(tasks, id, n, depth).contains((j, depth)),
    decreases n,
{
    let all = below(tasks, id, n, depth);
    let front = below(tasks, id, (n - 1) as nat, depth);
    if j == n - 1 {
        let own = subtree(tasks, j, depth);
        assert(own[0] == (j, depth));
        assert(all[front.len() as int] == (j, depth));
    } else {
        lemma_below_has(tasks, id, (n - 1) as nat, depth, j);
        let k = choose|k: int| 0 <= k < front.len() && front[k] == (j, depth);
        assert(all[k] == (j, depth));
    }
}

proof fn lemma_forest_has(tasks: Seq<Task>, n: nat, i: int, p: (int, nat))
    requires
        0 <= i < n <= tasks.len(),
        tasks[i].parent_id is None,
        subtree(tasks, i, 0).contains(p),
    ensures
        forest(tasks, n).contains(p),
    decreases n,
{
    let all = forest(tasks, n);
    let front = forest(tasks, (n - 1) as nat);
    if i == n - 1 {
        let own = subtree(tasks, i, 0);
        let k = choose|k: int| 0 <= k < own.len() && own[k] == p;
        assert(all[front.len() + k] == p);
    } else {
        lemma_forest_has(tasks, (n - 1) as nat, i, p);
        let k = choose|k: int| 0 <= k < front.len() && front[k] == p;
        assert(all[k] == p);
    }
}

/// Every task without a parent stands in the tree at its root, and each of its children
/// one step in.
pub proof fn law_tree_holds_roots_and_children(tasks: Seq<Task>, i: int, j: int)
    requires
        0 <= i < tasks.len(),
        tasks[i].parent_id is None,
    ensures
        forest(tasks, tasks.len()).contains((i, 0)),
        is_child(tasks, j, tasks[i].id@) ==> forest(tasks, tasks.len()).contains((j, 1)),
{
    let own = subtree(tasks, i, 0);
    assert(own[0] == (i, 0nat));
    lemma_forest_has(tasks, tasks.len(), i, (i, 0));
    if is_child(tasks, j, tasks[i].id@) {
        lemma_below_has(tasks, tasks[i].id@, tasks.len(), 1, j);
        let under = below(tasks, tasks[i].id@, tasks.len(), 1);
        let k = choose|k: int| 0 <= k < under.len() && under[k] == (j, 1nat);
        assert(own[k + 1] == (j, 1nat));
        lemma_forest_has(tasks, tasks.len(), i, (j, 1));
    }
}

/// The signs tell the states apart: only what is done has a tick, only what is given up
/// a cross, and only what is being done a full box.
pub proof fn law_task_signs_tell_states_apart(a: TaskStatus, b: TaskStatus)
    requires
        a.sign() == b.sign(),
        a != b,
    ensures
        a.open() && b.open(),
        a != TaskStatus::InProgress && b != TaskStatus::InProgress,
{
    reveal_strlit("□");
    reveal_strlit("■");
    reveal_strlit("✓");
    reveal_strlit("✗");
    assert("□"@[0] != "■"@[0] && "□"@[0] != "✓"@[0] && "□"@[0] != "✗"@[0]);
    assert("■"@[0] != "✓"@[0] && "■"@[0] != "✗"@[0] && "✓"@[0] != "✗"@[0]);
}

/// A tree is told 256 levels deep, and no deeper: a task stands above all that is below it.
pub proof fn law_trees_are_bounded(tasks: Seq<Task>, i: int, depth: nat)
    ensures
        depth < 256 ==> subtree(tasks, i, depth).len() > 0 && subtree(tasks, i, depth)[0] == (i, depth),
        depth >= 256 ==> subtree(tasks, i, depth).len() == 0,
{
}

} // verus!
