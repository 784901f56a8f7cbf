use jfc::badges::{
    agent_fan_below_input, goal_status_badge, names_truecolor, nudge_line, terminal_truecolor, ActiveGoal,
    ContextPressureNudge, NudgeKind,
};
use jfc::background::{BackgroundTask, Fleet};
use jfc::dispatch::teammate_task_id;
use jfc::status::{
    context_gauge_label, effort_status_badge, fit_segments, plan_badge, pretty_plan_name, quota_badge,
    QuotaSnapshot,
};
use jfc::styled::Line;
use jfc::teammates::{render_teammate_tree, teammates_panel, Teammate};
use jfc::time::Instant;
use jfc::transcript::TaskLifecycle;

fn percent(value: Option<f64>) -> Option<u32> {
    value.map(|v| (v.clamp(0.0, 1.0) * 100.0).round() as u32)
}

fn snap(u5: Option<f64>, u7: Option<f64>) -> QuotaSnapshot {
    QuotaSnapshot {
        percent_5h: percent(u5),
        percent_7d: percent(u7),
        overage_disabled_reason: None,
        is_using_overage: false,
    }
}

#[test]
fn quota_badge_picks_higher_pressure_window_normal() {
    let (label, pct) = quota_badge(&snap(Some(0.40), Some(0.95))).unwrap();
    assert_eq!(pct, 95);
    assert!(label.starts_with("7d 95%"), "got {label}");
}

#[test]
fn quota_badge_uses_5h_when_higher_normal() {
    let (label, pct) = quota_badge(&snap(Some(0.87), Some(0.20))).unwrap();
    assert_eq!(pct, 87);
    assert!(label.starts_with("5h 87%"), "got {label}");
}

#[test]
fn quota_badge_clamps_over_100_robust() {
    let (label, pct) = quota_badge(&snap(Some(1.01), None)).unwrap();
    assert_eq!(pct, 100);
    assert!(label.starts_with("5h 100%"), "got {label}");
}

#[test]
fn quota_badge_none_without_utilization_robust() {
    assert!(quota_badge(&snap(None, None)).is_none());
}

#[test]
fn quota_badge_flags_overage_off_normal() {
    let mut s = snap(Some(0.99), None);
    s.overage_disabled_reason = Some("out_of_credits".into());
    let (label, _) = quota_badge(&s).unwrap();
    assert!(label.contains("overage off"), "got {label}");
}

#[test]
fn goal_status_badge_includes_elapsed_normal() {
    let now = 1_000_000u64;
    let mut goal = ActiveGoal { condition: "ship it".to_owned(), set_at_ms: now };
    goal.set_at_ms = goal.set_at_ms.saturating_sub(65_000);
    assert_eq!(goal_status_badge(&goal, now), "◎ /goal active (1m05s)");
}

fn shown(line: &Line) -> String {
    line.spans.iter().map(|s| s.text.as_str()).collect()
}

#[test]
fn nudges_say_what_to_drop() {
    let nudge = ContextPressureNudge { kind: NudgeKind::ChannelTwo, reclaim_floor_tokens: 12_345 };
    assert_eq!(shown(&nudge_line(nudge)), "ctx_reduce ch2 drop 12,345");
    let nudge = ContextPressureNudge { kind: NudgeKind::Emergency, reclaim_floor_tokens: 7 };
    assert_eq!(shown(&nudge_line(nudge)), "ctx_reduce emergency drop 7");
}

#[test]
fn colours_of_the_terminal_are_recognised() {
    assert!(terminal_truecolor(&Some("TrueColor".to_owned())));
    assert!(terminal_truecolor(&Some("24bit".to_owned())));
    assert!(!terminal_truecolor(&Some("256".to_owned())));
    assert!(!terminal_truecolor(&None));
    assert!(!names_truecolor("TRUECOLOR"));
}

fn background_task(status: TaskLifecycle, task_id: &str, description: &str, now: Instant) -> BackgroundTask {
    BackgroundTask {
        task_id: task_id.to_owned(),
        description: description.to_owned(),
        status,
        started_at: now,
        completed_at: if status.is_terminal() { Some(now) } else { None },
        summary: None,
        error: None,
        last_tool: None,
        last_tool_info: None,
        recent_activities: Vec::new(),
        messages: Vec::new(),
        chat_messages: Vec::new(),
        tool_use_count: 0,
        latest_input_tokens: 0,
        latest_cache_read_tokens: 0,
        latest_cache_write_tokens: 0,
        cumulative_output_tokens: 0,
        model_used: None,
        parent_task_id: None,
        workflow_progress: None,
        last_activity_at: now,
    }
}

fn completed_team(now: Instant) -> (Fleet, Vec<Teammate>) {
    let task_id = teammate_task_id("alice@alpha");
    let fleet = Fleet {
        tasks: vec![background_task(TaskLifecycle::Completed, &task_id, "alice completed work", now)],
        last_active: None,
        viewing: None,
    };
    let mates = vec![Teammate {
        agent_id: "alice@alpha".to_owned(),
        name: "alice".to_owned(),
        color: None,
        has_handle: true,
    }];
    (fleet, mates)
}

#[test]
fn team_section_uses_background_lifecycle_over_abort_handle_regression() {
    let now = Instant::at_nanos(0);
    let (fleet, mates) = completed_team(now);
    let lines = teammates_panel(&fleet, true, &mates, 90, 24, now);
    let text: String = lines.iter().map(|l| shown(l) + "\n").collect();
    assert!(text.contains("alice completed work"), "task row missing:\n{text}");
    assert!(text.contains("alice  completed"), "team row should use completed lifecycle:\n{text}");
    assert!(
        !text.contains("alice  running"),
        "abort handle must not make a completed teammate look running:\n{text}"
    );
}

#[test]
fn the_fan_shows_the_team_or_the_agents() {
    let now = Instant::at_nanos(0);
    let (fleet, mates) = completed_team(now);
    let fan = agent_fan_below_input(Some(&mates), &fleet, 90, 6, now).unwrap();
    assert_eq!(fan.title, Some(" team "));
    assert_eq!(fan.lines.len(), render_teammate_tree(&mates, &fleet.tasks, 90, 5).len());
    assert!(agent_fan_below_input(None, &fleet, 90, 6, now).unwrap().title.is_none());
    assert!(agent_fan_below_input(None, &fleet, 90, 0, now).is_none());
}

#[test]
fn badges_read_as_documented() {
    assert_eq!(context_gauge_label(12_345, 200_000, 6), " ctx 12k / 200k · 6% ");
    assert_eq!(effort_status_badge(&None), "effort default");
    assert_eq!(pretty_plan_name("max"), "Max");
    assert_eq!(pretty_plan_name("new"), "new");
    assert_eq!(plan_badge(&Some("pro".to_owned()), &Some("seat".to_owned())), Some("Pro·seat".to_owned()));
    assert_eq!(plan_badge(&Some("max".to_owned()), &None), Some("Max".to_owned()));
    assert_eq!(plan_badge(&None, &Some("seat".to_owned())), Some("seat".to_owned()));
    assert_eq!(plan_badge(&None, &None), None);
}

#[test]
fn alerts_outlive_hints() {
    assert_eq!(fit_segments(&[10, 95, 20], &[5, 5, 5], 0, 15), vec![true, true, true]);
    assert_eq!(fit_segments(&[10, 95, 20], &[5, 5, 5], 0, 10), vec![false, true, true]);
    assert_eq!(fit_segments(&[10, 95, 20], &[5, 5, 5], 1, 10), vec![false, true, false]);
    assert_eq!(fit_segments(&[10, 95, 20], &[5, 5, 5], 0, 4), vec![false, false, false]);
}

#[test]
fn no_segment_goes_needlessly() {
    let (prios, widths) = ([30u8, 10, 95, 30, 91], [4usize, 9, 6, 3, 5]);
    let goes_before = |a: usize, b: usize| prios[a] < prios[b] || (prios[a] == prios[b] && a < b);
    for avail in 0..30 {
        let keep = fit_segments(&prios, &widths, 0, avail);
        for i in 0..prios.len() {
            let later: usize = (0..prios.len()).filter(|j| !goes_before(*j, i)).map(|j| widths[j]).sum();
            assert_eq!(keep[i], later <= avail);
        }
    }
}
