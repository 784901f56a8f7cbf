use jfc::descriptors::{
    ExtensionSlot, MetricDescriptor, MetricSurface, MetricUnit, RefreshStatus, RuntimeActionDescriptor, RuntimeActionKind,
    UiMutationScope, UiPanelDescriptor, UiPanelRefreshStatuses, UiPanelSnapshots, UiSlotDescriptor, UiSnapshot, UiWidgetDescriptor,
    UiWidgetKind, UiWidgetRefreshStatuses, UiWidgetSnapshots,
};
use jfc::plugin_health::{
    cache_hit_badge, cache_totals, has_status_line_slot, metric_panel_descriptor_rows, plugin_health_badge,
    plugin_health_detail_render_rows, rsi_metric_rows, PluginDescriptorCounts, PluginDescriptorIssue,
    PluginDescriptorIssueActionability, PluginDescriptorIssueKind, PluginDescriptorIssueSeverity,
    PluginDescriptorKind, PluginDescriptorTargetKind, PluginDetailRow, PluginDetailRowTone, PluginHealthSummary,
    PluginHostDiagnostics, PluginReloadReport, RsiCounts, BUILTIN_CACHE_HIT_METRIC_ID,
    BUILTIN_RSI_PROMPT_SECTIONS_METRIC_ID,
};
use jfc::plugin_rows::{
    compact_status_text, info_sidebar_panel_sections, relative_duration_label, session_sidebar_widget_rows,
    task_panel_widget_rows, ui_snapshot_key, ui_widget_panel_rows, FocusedUiItem, PluginPanelSection,
};
use jfc::task_detail::render_task_panel_widgets;
use jfc::text_map::TextMap;
use jfc::time::{Duration, Instant};
use jfc::transcript::ModelUsage;

fn now() -> Instant {
    Instant::at_nanos(1_000_000_000_000)
}

fn panel(scope: UiMutationScope, id: &str, title: &str, body: &str, priority: i32) -> UiPanelDescriptor {
    UiPanelDescriptor {
        plugin_id: "demo".to_owned(),
        scope,
        id: id.to_owned(),
        title: title.to_owned(),
        body: Some(body.to_owned()),
        runtime_action_id: None,
        refresh: None,
        priority,
    }
}

fn widget(scope: UiMutationScope, id: &str, label: &str, kind: UiWidgetKind) -> UiWidgetDescriptor {
    UiWidgetDescriptor {
        plugin_id: "demo".to_owned(),
        scope,
        id: id.to_owned(),
        label: label.to_owned(),
        kind,
        body: None,
        runtime_action_id: None,
        refresh: None,
        priority: 0,
    }
}

fn sections(list: Vec<PluginPanelSection>) -> Vec<(String, Vec<String>)> {
    list.into_iter().map(|s| (s.title, s.rows)).collect()
}

#[test]
fn info_sidebar_panel_sections_sort_and_format_panels_normal() {
    let mut high = panel(UiMutationScope::InfoSidebar, "high", "High", "first line\n\n second line ", 10);
    high.runtime_action_id = Some("demo.open".to_owned());
    let panels = vec![
        panel(UiMutationScope::TaskPanel, "hidden", "Hidden", "not shown", 100),
        panel(UiMutationScope::InfoSidebar, "low", "Low", "low body", 1),
        high,
    ];
    assert_eq!(
        sections(info_sidebar_panel_sections(
            &panels,
            &UiPanelSnapshots::new(),
            &UiPanelRefreshStatuses::new(),
            &None,
            now(),
        )),
        vec![
            (
                "High · demo:high".to_owned(),
                vec!["first line".to_owned(), "second line".to_owned(), "action demo.open".to_owned()],
            ),
            ("Low · demo:low".to_owned(), vec!["low body".to_owned()]),
        ]
    );
}

#[test]
fn info_sidebar_panel_sections_marks_focused_panel_normal() {
    let panels = vec![panel(UiMutationScope::InfoSidebar, "high", "High", "body", 0)];
    let focused = Some(FocusedUiItem { plugin_id: "demo".to_owned(), item_id: "high".to_owned() });
    assert_eq!(
        sections(info_sidebar_panel_sections(
            &panels,
            &UiPanelSnapshots::new(),
            &UiPanelRefreshStatuses::new(),
            &focused,
            now(),
        )),
        vec![("> High · demo:high".to_owned(), vec!["body".to_owned()])]
    );
}

#[test]
fn panel_rows_prefer_host_snapshot_body_over_manifest_body_normal() {
    let panels = vec![panel(UiMutationScope::InfoSidebar, "reviews", "Reviews", "stale manifest body", 0)];
    let mut snapshots: UiPanelSnapshots = TextMap::new();
    snapshots.insert(
        "demo\0info_sidebar\0reviews".to_owned(),
        UiSnapshot { body: Some("fresh bridge body\nsecond line".to_owned()), state: None },
    );
    assert_eq!(
        sections(info_sidebar_panel_sections(
            &panels,
            &snapshots,
            &UiPanelRefreshStatuses::new(),
            &None,
            now()
        )),
        vec![(
            "Reviews · demo:reviews".to_owned(),
            vec!["fresh bridge body".to_owned(), "second line".to_owned()],
        )]
    );
}

#[test]
fn panel_rows_include_refresh_status_for_refreshable_panels_normal() {
    let mut reviews = panel(UiMutationScope::InfoSidebar, "reviews", "Reviews", "stale", 0);
    reviews.refresh = Some("/bin/reviews-panel".to_owned());
    let mut status: UiPanelRefreshStatuses = TextMap::new();
    status.insert(
        "demo\0info_sidebar\0reviews".to_owned(),
        RefreshStatus { last_success_at: Some(now()), ..RefreshStatus::default() },
    );
    assert_eq!(
        sections(info_sidebar_panel_sections(&[reviews], &UiPanelSnapshots::new(), &status, &None, now())),
        vec![(
            "Reviews · demo:reviews".to_owned(),
            vec!["stale".to_owned(), "refresh ok just now".to_owned()],
        )]
    );
}

#[test]
fn plugin_health_badge_reports_failures_first_normal() {
    let summary =
        PluginHealthSummary { total: 4, active: 2, disabled: 1, failed: 1, registered: 0, error_count: 0 };
    assert_eq!(plugin_health_badge(&summary), Some("plugins 1 failed".to_owned()));
}

#[test]
fn empty_plugin_health_stays_hidden_normal() {
    assert_eq!(plugin_health_badge(&PluginHealthSummary::default()), None);
}

fn one_active() -> PluginHealthSummary {
    PluginHealthSummary { total: 1, active: 1, disabled: 0, failed: 0, registered: 0, error_count: 0 }
}

fn no_counts() -> PluginDescriptorCounts {
    PluginDescriptorCounts {
        plugins: 0,
        active_plugins: 0,
        failed_plugins: 0,
        hooks: 0,
        services: 0,
        tools: 0,
        providers: 0,
        resources: 0,
        commands: 0,
        ui_slots: 0,
        ui_panels: 0,
        ui_widgets: 0,
        runtime_actions: 0,
        runtime_extensions: 0,
        agent_launches: 0,
        metrics: 0,
        errors: 0,
    }
}

fn row_texts(rows: Vec<PluginDetailRow>) -> Vec<String> {
    rows.into_iter().map(|row| row.text).collect()
}

#[test]
fn plugin_health_detail_rows_without_reload_report_stays_health_only_normal() {
    assert_eq!(
        row_texts(plugin_health_detail_render_rows(&one_active(), None, &[])),
        vec!["1/1 active".to_owned()]
    );
}

#[test]
fn plugin_health_detail_rows_surface_reload_state_normal() {
    let summary =
        PluginHealthSummary { total: 4, active: 2, disabled: 1, failed: 1, registered: 0, error_count: 3 };
    let report = PluginReloadReport {
        diagnostics: PluginHostDiagnostics {
            health: summary,
            counts: PluginDescriptorCounts {
                plugins: 4,
                active_plugins: 2,
                failed_plugins: 1,
                hooks: 0,
                services: 0,
                tools: 1,
                providers: 0,
                resources: 2,
                commands: 0,
                ui_slots: 3,
                ui_panels: 1,
                ui_widgets: 1,
                runtime_actions: 6,
                runtime_extensions: 4,
                agent_launches: 5,
                metrics: 6,
                errors: 3,
            },
            descriptor_digest: "bbbbbbbbbbbbbbbb".to_owned(),
            descriptor_issues: Vec::new(),
        },
        changed: Some(true),
    };
    assert_eq!(
        row_texts(plugin_health_detail_render_rows(&summary, Some(&report), &[])),
        vec![
            "2/4 active".to_owned(),
            "1 failed".to_owned(),
            "3 errors".to_owned(),
            "1 disabled".to_owned(),
            "descriptors changed".to_owned(),
            "digest bbbbbbbbbbbbbbbb".to_owned(),
            "tools 1 · resources 2 · ui slots 3 · actions 6 · runtime ext 4 · agent launches 5".to_owned(),
            "widgets 1".to_owned(),
            "panels 1".to_owned(),
            "metrics 6".to_owned(),
        ]
    );
}

#[test]
fn plugin_health_detail_render_rows_surface_descriptor_issues_normal() {
    let summary = one_active();
    let report = PluginReloadReport {
        diagnostics: PluginHostDiagnostics {
            health: summary,
            counts: no_counts(),
            descriptor_digest: "bbbbbbbbbbbbbbbb".to_owned(),
            descriptor_issues: vec![PluginDescriptorIssue {
                kind: PluginDescriptorIssueKind::MissingRuntimeAction,
                severity: PluginDescriptorIssueSeverity::Error,
                actionability: PluginDescriptorIssueActionability::AddRuntimeAction,
                plugin_id: "acme".to_owned(),
                descriptor_kind: PluginDescriptorKind::UiWidget,
                descriptor_id: "queue".to_owned(),
                target_plugin_id: "acme".to_owned(),
                target_kind: PluginDescriptorTargetKind::RuntimeAction,
                target_id: "queue.run".to_owned(),
                repair_hint: "Add runtime action 'queue.run' to plugin 'acme', or point UI widget 'queue' in plugin 'acme' at an existing runtime action.".to_owned(),
            }],
        },
        changed: None,
    };
    let rows = plugin_health_detail_render_rows(&summary, Some(&report), &[]);
    assert!(rows.iter().any(|row| row.text == "descriptor issues 1"));
    let issue_row = rows
        .iter()
        .find(|row| row.text.contains("missing_runtime_action"))
        .expect("descriptor issue row");
    assert_eq!(issue_row.tone, PluginDetailRowTone::Error);
    assert!(rows.iter().any(|row| row.text.contains("fix Add runtime action 'queue.run'")));
}

#[test]
fn plugin_health_detail_render_rows_surface_diagnostics_action_normal() {
    let actions = vec![
        RuntimeActionDescriptor {
            plugin_id: "builtin.jfc-ux".to_owned(),
            id: "command_palette.plugin_diagnostics".to_owned(),
            label: "Run Plugin Diagnostics".to_owned(),
            kind: RuntimeActionKind::PluginDiagnostics,
        },
        RuntimeActionDescriptor {
            plugin_id: "builtin.jfc-ux".to_owned(),
            id: "plugin.smoke".to_owned(),
            label: "Smoke Plugin".to_owned(),
            kind: RuntimeActionKind::PluginSmoke,
        },
    ];
    let rows = row_texts(plugin_health_detail_render_rows(&one_active(), None, &actions));
    assert!(rows.contains(&"diagnostics action Run Plugin Diagnostics".to_owned()));
    assert!(rows.contains(&"diagnostics smoke checks 1".to_owned()));
}

fn metric(id: &str, label: &str, unit: MetricUnit, surface: MetricSurface, priority: i32) -> MetricDescriptor {
    MetricDescriptor {
        plugin_id: "demo".to_owned(),
        id: id.to_owned(),
        label: label.to_owned(),
        unit,
        surfaces: vec![surface],
        priority,
    }
}

#[test]
fn cache_hit_badge_is_metric_descriptor_gated_normal() {
    let metrics = vec![metric(
        BUILTIN_CACHE_HIT_METRIC_ID,
        "Cache hit",
        MetricUnit::Percent,
        MetricSurface::StatusLine,
        0,
    )];
    let usage = vec![(
        "model".to_owned(),
        ModelUsage {
            input_tokens: 100,
            output_tokens: 0,
            cache_read_tokens: 40,
            cache_write_tokens: 0,
            cost_usd: None,
        },
    )];
    let hit = cache_totals(&usage).map(|(read, input)| (read as f64 / input as f64 * 100.0).min(100.0).round() as u64);
    assert_eq!(cache_hit_badge(&metrics, hit), Some("cache 40%".to_owned()));
    assert_eq!(cache_hit_badge(&[], hit), None);
    assert_eq!(cache_totals(&Vec::new()), None);
}

#[test]
fn rsi_metric_rows_read_latest_request_metadata_normal() {
    let metrics = vec![metric(
        BUILTIN_RSI_PROMPT_SECTIONS_METRIC_ID,
        "RSI prompt",
        MetricUnit::Count,
        MetricSurface::Sidebar,
        0,
    )];
    let counts = RsiCounts { rsi_prompt_sections: 3, rsi_tool_visibility_rules: 1 };
    assert_eq!(rsi_metric_rows(&metrics, Some(counts)), vec!["rsi prompt sections 3".to_owned()]);
}

#[test]
fn metric_panel_descriptor_rows_sort_and_format_panel_metrics_normal() {
    let metrics = vec![
        metric("low", "Low", MetricUnit::Text, MetricSurface::Panel, 1),
        metric("high", "High", MetricUnit::Count, MetricSurface::Panel, 10),
        metric("sidebar", "Sidebar", MetricUnit::Count, MetricSurface::Sidebar, 0),
    ];
    assert_eq!(
        metric_panel_descriptor_rows(&metrics),
        vec!["High · count · demo:high".to_owned(), "Low · text · demo:low".to_owned()]
    );
}

#[test]
fn ui_widget_panel_rows_sort_and_format_info_sidebar_widgets_normal() {
    let mut low = widget(UiMutationScope::InfoSidebar, "low", "Low", UiWidgetKind::Text);
    low.body = Some("low body".to_owned());
    low.priority = 1;
    let mut high = widget(UiMutationScope::InfoSidebar, "high", "High", UiWidgetKind::Action);
    high.runtime_action_id = Some("demo.refresh".to_owned());
    high.priority = 10;
    let widgets = vec![widget(UiMutationScope::TaskPanel, "hidden", "Hidden", UiWidgetKind::Text), low, high];
    assert_eq!(
        ui_widget_panel_rows(&widgets, &UiWidgetSnapshots::new(), &UiWidgetRefreshStatuses::new(), &None, now()),
        vec![
            "High · action demo.refresh · demo:high".to_owned(),
            "Low · low body · demo:low".to_owned(),
        ]
    );
}

#[test]
fn ui_widget_panel_rows_marks_focused_info_sidebar_widget_normal() {
    let mut high = widget(UiMutationScope::InfoSidebar, "high", "High", UiWidgetKind::Action);
    high.runtime_action_id = Some("demo.refresh".to_owned());
    high.priority = 10;
    let focused = Some(FocusedUiItem { plugin_id: "demo".to_owned(), item_id: "high".to_owned() });
    assert_eq!(
        ui_widget_panel_rows(
            &[high],
            &UiWidgetSnapshots::new(),
            &UiWidgetRefreshStatuses::new(),
            &focused,
            now()
        ),
        vec!["> High · action demo.refresh · demo:high".to_owned()]
    );
}

#[test]
fn widget_rows_filter_task_and_session_scopes_normal() {
    let mut task = widget(UiMutationScope::TaskPanel, "task", "Task Widget", UiWidgetKind::Text);
    task.body = Some("task body".to_owned());
    task.priority = 20;
    let mut session = widget(UiMutationScope::SessionSidebar, "session", "Session Widget", UiWidgetKind::Action);
    session.runtime_action_id = Some("session.open".to_owned());
    session.priority = 10;
    let widgets = vec![task, session];
    assert_eq!(
        task_panel_widget_rows(&widgets, &UiWidgetSnapshots::new(), &UiWidgetRefreshStatuses::new(), now()),
        vec!["Task Widget · task body · demo:task".to_owned()]
    );
    assert_eq!(
        session_sidebar_widget_rows(&widgets, &UiWidgetSnapshots::new(), &UiWidgetRefreshStatuses::new(), now()),
        vec!["Session Widget · action session.open · demo:session".to_owned()]
    );
}

#[test]
fn widget_rows_prefer_host_snapshot_body_over_manifest_body_normal() {
    let mut reviews = widget(UiMutationScope::InfoSidebar, "reviews", "Reviews", UiWidgetKind::Text);
    reviews.body = Some("stale manifest body".to_owned());
    let mut snapshots: UiWidgetSnapshots = TextMap::new();
    snapshots.insert(
        "demo\0info_sidebar\0reviews".to_owned(),
        UiSnapshot { body: Some("fresh bridge body".to_owned()), state: None },
    );
    assert_eq!(
        ui_widget_panel_rows(&[reviews], &snapshots, &UiWidgetRefreshStatuses::new(), &None, now()),
        vec!["Reviews · fresh bridge body · demo:reviews".to_owned()]
    );
}

#[test]
fn widget_rows_include_refresh_status_for_refreshable_widgets_normal() {
    let mut reviews = widget(UiMutationScope::InfoSidebar, "reviews", "Reviews", UiWidgetKind::Text);
    reviews.body = Some("stale".to_owned());
    reviews.refresh = Some("/bin/reviews-widget".to_owned());
    let mut status: UiWidgetRefreshStatuses = TextMap::new();
    status.insert(
        "demo\0info_sidebar\0reviews".to_owned(),
        RefreshStatus { last_success_at: Some(now()), ..RefreshStatus::default() },
    );
    assert_eq!(
        ui_widget_panel_rows(&[reviews], &UiWidgetSnapshots::new(), &status, &None, now()),
        vec!["Reviews · stale · refresh ok just now · demo:reviews".to_owned()]
    );
}

#[test]
fn task_panel_renders_task_scope_plugin_widgets_normal() {
    let mut task = widget(UiMutationScope::TaskPanel, "task.widget", "Task Widget", UiWidgetKind::Text);
    task.body = Some("task body".to_owned());
    let rows = task_panel_widget_rows(&[task], &UiWidgetSnapshots::new(), &UiWidgetRefreshStatuses::new(), now());
    let (title, lines) = render_task_panel_widgets(&rows).expect("widgets");
    let mut text = title.text;
    for line in &lines {
        for span in &line.spans {
            text.push_str(&span.text);
        }
    }
    assert!(text.contains("Plugin widgets"), "missing section:\n{text}");
    assert!(text.contains("Task Widget"), "missing widget:\n{text}");
    assert!(text.contains("task body"), "missing widget body:\n{text}");
    assert!(render_task_panel_widgets(&Vec::new()).is_none());
}

#[test]
fn snapshot_keys_tell_scopes_apart() {
    assert_eq!(ui_snapshot_key("demo", UiMutationScope::TaskPanel, "x"), "demo\0task_panel\0x");
    assert_ne!(
        ui_snapshot_key("demo", UiMutationScope::TaskPanel, "x"),
        ui_snapshot_key("demo", UiMutationScope::SessionSidebar, "x")
    );
}

#[test]
fn status_texts_are_one_short_line() {
    assert_eq!(compact_status_text("a\nb"), "a b");
    assert_eq!(compact_status_text(&"x".repeat(200)).chars().count(), 80);
    assert_eq!(relative_duration_label(Duration::from_secs(3)), "3s ago");
}

#[test]
fn a_slot_of_the_status_line_is_found_by_its_id() {
    let slots = [
        UiSlotDescriptor { slot: ExtensionSlot::Sidebar, id: "clock".to_owned() },
        UiSlotDescriptor { slot: ExtensionSlot::StatusLine, id: "load".to_owned() },
    ];
    assert!(has_status_line_slot(&slots, "load"));
    assert!(!has_status_line_slot(&slots, "clock"));
}
