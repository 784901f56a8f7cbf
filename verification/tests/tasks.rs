use jfc::spinner::SpinnerPhase;
use jfc::spinner_row::stream_quiet_duration;
use jfc::tasks::{pick_next_open_task, tree_order, tree_prefix, Task, TaskStatus};
use jfc::time::{Duration, Instant};

fn task(id: &str, subject: &str, status: TaskStatus) -> Task {
    Task {
        id: id.to_owned(),
        subject: subject.to_owned(),
        description: String::new(),
        status,
        active_form: None,
        owner: None,
        parent_id: None,
        blocked_by: Vec::new(),
        model: None,
    }
}

#[test]
fn empty_store_returns_none_normal() {
    let tasks = Vec::new();
    assert!(pick_next_open_task(&tasks).is_none());
}

#[test]
fn single_pending_task_picked_normal() {
    let tasks = vec![task("1", "Wire spinner", TaskStatus::Pending)];
    let picked = pick_next_open_task(&tasks).expect("should pick the pending task");
    assert_eq!(picked.subject, "Wire spinner");
}

#[test]
fn in_progress_wins_over_pending_normal() {
    let tasks = vec![
        task("1", "First (pending)", TaskStatus::Pending),
        task("2", "Second (will be in-progress)", TaskStatus::InProgress),
    ];
    let picked = pick_next_open_task(&tasks).expect("in-progress should win");
    assert_eq!(picked.subject, "Second (will be in-progress)");
    assert!(tasks.iter().any(|t| t.id == "1"), "pending task should still be in the list");
}

#[test]
fn only_completed_returns_none_robust() {
    let tasks = vec![task("1", "Done thing", TaskStatus::Completed)];
    assert!(pick_next_open_task(&tasks).is_none(), "completed-only store should yield no open task");
}

#[test]
fn skips_completed_when_pending_exists_robust() {
    let tasks = vec![
        task("1", "Already done", TaskStatus::Completed),
        task("2", "Still queued", TaskStatus::Pending),
    ];
    let picked = pick_next_open_task(&tasks).expect("pending should be picked");
    assert_eq!(picked.subject, "Still queued");
}

#[test]
fn children_follow_their_parent() {
    let mut child = task("3", "child", TaskStatus::Pending);
    child.parent_id = Some("1".to_owned());
    let tasks = vec![task("1", "a", TaskStatus::Pending), task("2", "b", TaskStatus::Pending), child];
    assert_eq!(tree_order(&tasks), vec![(0, 0), (2, 1), (1, 0)]);
    assert_eq!(tree_prefix(0), "");
    assert_ne!(tree_prefix(1), "");
}

#[test]
fn quiet_duration_only_applies_to_content_phases_regression() {
    let last = Instant::at_nanos(0);
    let now = last.checked_add(Duration::from_secs(51)).unwrap();
    assert_eq!(stream_quiet_duration(SpinnerPhase::ToolUse, false, Some(last), now), Duration::default());
    assert_eq!(stream_quiet_duration(SpinnerPhase::Working, false, Some(last), now), Duration::default());
    assert_eq!(stream_quiet_duration(SpinnerPhase::Thinking, true, Some(last), now), Duration::default());
    assert_eq!(
        stream_quiet_duration(SpinnerPhase::Thinking, false, Some(last), now),
        Duration::from_secs(51)
    );
}
