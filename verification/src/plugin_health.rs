//! Plugin health and metrics, as rows of text.
use vstd::prelude::*;

use crate::descriptors::{
    in_listing_order, items_of, listing, ExtensionSlot, MetricDescriptor, MetricSurface, MetricUnit,
    RuntimeActionDescriptor, RuntimeActionKind, UiSlotDescriptor,
};
use crate::fitting::{fmt_number, grouped};
use crate::order::sorted;
use crate::showing::{lemma_has_in_sum, lemma_sum_of_three};
use crate::slicing::{group_texts, has_prefix, has_suffix, has_text, opt_text, texts};
use crate::text::{cat2, cat3, cat4, cat5, cat6, count_text, decimal, decimal_text, same_text};
use crate::transcript::ModelUsage;

verus! {

broadcast use group_texts;

/// Share of the input that came from the cache.
pub const BUILTIN_CACHE_HIT_METRIC_ID: &'static str = "cache.hit";

/// Digest of the plugin descriptors.
pub const BUILTIN_CACHE_DIGEST_METRIC_ID: &'static str = "cache.descriptor_digest";

/// Learned sections in the last prompt.
pub const BUILTIN_RSI_PROMPT_SECTIONS_METRIC_ID: &'static str = "rsi.prompt_sections";

/// Learned rules on which tools are shown.
pub const BUILTIN_RSI_TOOL_VISIBILITY_METRIC_ID: &'static str = "rsi.tool_visibility";

// ── slots and metrics ───────────────────────────────────────────────────

/// A slot of the status line has that id.
pub open spec fn on_status_line(slots: Seq<UiSlotDescriptor>, id: Seq<char>) -> bool {
    exists|i: int|
        0 <= i < slots.len() && (#[trigger] slots[i]).slot == ExtensionSlot::StatusLine && slots[i].id@ == id
}

/// Whether a plugin extends the status line under that id.
pub fn has_status_line_slot(slots: &[UiSlotDescriptor], id: &str) -> (r: bool)
    ensures
        r == on_status_line(slots@, id@),
{
    let mut i: usize = 0;
    while i < slots.len()
        invariant
            i <= slots@.len(),
            forall|j: int|
                0 <= j < i ==> !((#[trigger] slots@[j]).slot == ExtensionSlot::StatusLine && slots@[j].id@ == id@),
        decreases slots@.len() - i,
    {
        if slots[i].slot == ExtensionSlot::StatusLine && same_text(slots[i].id.as_str(), id) {
            return true;
        }
        i += 1;
    }
    false
}

/// The metric is shown on that surface.
pub open spec fn shown_on(metric: MetricDescriptor, surface: MetricSurface) -> bool {
    metric.surfaces@.contains(surface)
}

fn is_shown_on(metric: &MetricDescriptor, surface: MetricSurface) -> (r: bool)
    ensures
        r == shown_on(*metric, surface),
{
    let mut i: usize = 0;
    while i < metric.surfaces.len()
        invariant
            i <= metric.surfaces@.len(),
            forall|j: int| 0 <= j < i ==> metric.surfaces@[j] != surface,
        decreases metric.surfaces@.len() - i,
    {
        if metric.surfaces[i] == surface {
            return true;
        }
        i += 1;
    }
    false
}

/// A metric of that id is shown on that surface.
pub open spec fn surfaced(metrics: Seq<MetricDescriptor>, id: Seq<char>, surface: MetricSurface) -> bool {
    exists|i: int| 0 <= i < metrics.len() && (#[trigger] metrics[i]).id@ == id && shown_on(metrics[i], surface)
}

/// Whether a metric of that id is shown on that surface.
pub fn has_metric_surface(metrics: &[MetricDescriptor], id: &str, surface: MetricSurface) -> (r: bool)
    ensures
        r == surfaced(metrics@, id@, surface),
{
    let mut i: usize = 0;
    while i < metrics.len()
        invariant
            i <= metrics@.len(),
            forall|j: int|
                0 <= j < i ==> !((#[trigger] metrics@[j]).id@ == id@ && shown_on(metrics@[j], surface)),
        decreases metrics@.len() - i,
    {
        if same_text(metrics[i].id.as_str(), id) && is_shown_on(&metrics[i], surface) {
            return true;
        }
        i += 1;
    }
    false
}

// ── cache use ───────────────────────────────────────────────────────────

/// Tokens read from the cache, over all models.
pub open spec fn cache_read_total(usage: Seq<(String, ModelUsage)>) -> nat
    decreases usage.len(),
{
    if usage.len() == 0 {
        0
    } else {
        cache_read_total(usage.drop_last()) + usage.last().1.cache_read_tokens as nat
    }
}

/// Input tokens, over all models.
pub open spec fn input_total(usage: Seq<(String, ModelUsage)>) -> nat
    decreases usage.len(),
{
    if usage.len() == 0 {
        0
    } else {
        input_total(usage.drop_last()) + usage.last().1.input_tokens as nat
    }
}

proof fn lemma_totals_grow(usage: Seq<(String, ModelUsage)>, i: int)
    requires
        0 <= i <= usage.len(),
    ensures
        cache_read_total(usage.take(i)) <= cache_read_total(usage),
        input_total(usage.take(i)) <= input_total(usage),
    decreases usage.len() - i,
{
    if i < usage.len() {
        assert(usage.take(i + 1).drop_last() =~= usage.take(i));
        lemma_totals_grow(usage, i + 1);
    } else {
        assert(usage.take(i) =~= usage);
    }
}

/// Tokens read from the cache, over all models.
pub fn total_cache_read_tokens(usage: &Vec<(String, ModelUsage)>) -> (r: u64)
    requires
        cache_read_total(usage@) <= u64::MAX,
    ensures
        r == cache_read_total(usage@),
{
    let mut total: u64 = 0;
    let mut i: usize = 0;
    assert(usage@.take(0) =~= Seq::<(String, ModelUsage)>::empty());
    while i < usage.len()
        invariant
            i <= usage@.len(),
            cache_read_total(usage@) <= u64::MAX,
            total == cache_read_total(usage@.take(i as int)),
        decreases usage@.len() - i,
    {
        proof {
            assert(usage@.take(i + 1).drop_last() =~= usage@.take(i as int));
            lemma_totals_grow(usage@, i + 1);
        }
        total = total + usage[i].1.cache_read_tokens;
        i += 1;
    }
    assert(usage@.take(i as int) =~= usage@);
    total
}

/// Input tokens, over all models.
pub fn total_input_tokens(usage: &Vec<(String, ModelUsage)>) -> (r: u64)
    requires
        input_total(usage@) <= u64::MAX,
    ensures
        r == input_total(usage@),
{
    let mut total: u64 = 0;
    let mut i: usize = 0;
    assert(usage@.take(0) =~= Seq::<(String, ModelUsage)>::empty());
    while i < usage.len()
        invariant
            i <= usage@.len(),
            input_total(usage@) <= u64::MAX,
            total == input_total(usage@.take(i as int)),
        decreases usage@.len() - i,
    {
        proof {
            assert(usage@.take(i + 1).drop_last() =~= usage@.take(i as int));
            lemma_totals_grow(usage@, i + 1);
        }
        total = total + usage[i].1.input_tokens;
        i += 1;
    }
    assert(usage@.take(i as int) =~= usage@);
    total
}

/// Cache reads and input, where there were both: what the hit rate is taken of.
pub fn cache_totals(usage: &Vec<(String, ModelUsage)>) -> (r: Option<(u64, u64)>)
    requires
        cache_read_total(usage@) <= u64::MAX,
        input_total(usage@) <= u64::MAX,
    ensures
        r == (if cache_read_total(usage@) > 0 && input_total(usage@) > 0 {
            Some((cache_read_total(usage@) as u64, input_total(usage@) as u64))
        } else {
            None
        }),
{
    let read = total_cache_read_tokens(usage);
    let input = total_input_tokens(usage);
    if read > 0 && input > 0 {
        Some((read, input))
    } else {
        None
    }
}

/// The cache badge of the status line, for a hit rate in whole percent.
pub open spec fn cache_badge(metrics: Seq<MetricDescriptor>, hit_pct: Option<u64>) -> Option<Seq<char>> {
    if !surfaced(metrics, BUILTIN_CACHE_HIT_METRIC_ID@, MetricSurface::StatusLine) {
        None
    } else {
        match hit_pct {
            None => None,
            Some(pct) => Some("cache "@ + decimal(pct as nat) + "%"@),
        }
    }
}

/// The cache badge of the status line, for a hit rate in whole percent. It
/// stands there only where a plugin announces the metric.
pub fn cache_hit_badge(metrics: &[MetricDescriptor], hit_pct: Option<u64>) -> (r: Option<String>)
    ensures
        opt_text(r) == cache_badge(metrics@, hit_pct),
{
    if !has_metric_surface(metrics, BUILTIN_CACHE_HIT_METRIC_ID, MetricSurface::StatusLine) {
        return None;
    }
    match hit_pct {
        None => None,
        Some(pct) => Some(cat3("cache ", decimal_text(pct).as_str(), "%")),
    }
}

// ── health ──────────────────────────────────────────────────────────────

/// How many plugins are in which state.
#[derive(Debug, Clone, Copy, PartialEq, Eq, Structural)]
pub struct PluginHealthSummary {
    pub total: usize,
    pub active: usize,
    pub disabled: usize,
    pub failed: usize,
    pub registered: usize,
    pub error_count: usize,
}

impl Default for PluginHealthSummary {
    fn default() -> (r: Self)
        ensures
            r == (PluginHealthSummary {
                total: 0,
                active: 0,
                disabled: 0,
                failed: 0,
                registered: 0,
                error_count: 0,
            }),
    {
        PluginHealthSummary { total: 0, active: 0, disabled: 0, failed: 0, registered: 0, error_count: 0 }
    }
}

/// The badge for a state of health: the worst news that there is.
pub open spec fn health_badge(h: PluginHealthSummary) -> Option<Seq<char>> {
    if h.total == 0 {
        None
    } else if h.failed > 0 {
        Some("plugins "@ + decimal(h.failed as nat) + " failed"@)
    } else if h.error_count > 0 {
        Some("plugins "@ + decimal(h.error_count as nat) + " errors"@)
    } else if h.disabled > 0 {
        Some("plugins "@ + decimal(h.active as nat) + "/"@ + decimal(h.total as nat) + " on"@)
    } else if h.registered > 0 {
        Some("plugins "@ + decimal(h.registered as nat) + " pending"@)
    } else {
        Some("plugins "@ + decimal(h.active as nat) + " ok"@)
    }
}

/// The badge for a state of health.
pub fn plugin_health_badge(summary: &PluginHealthSummary) -> (r: Option<String>)
    ensures
        opt_text(r) == health_badge(*summary),
{
    if summary.total == 0 {
        return None;
    }
    if summary.failed > 0 {
        return Some(cat3("plugins ", count_text(summary.failed).as_str(), " failed"));
    }
    if summary.error_count > 0 {
        return Some(cat3("plugins ", count_text(summary.error_count).as_str(), " errors"));
    }
    if summary.disabled > 0 {
        return Some(
            cat5(
                "plugins ",
                count_text(summary.active).as_str(),
                "/",
                count_text(summary.total).as_str(),
                " on",
            ),
        );
    }
    if summary.registered > 0 {
        return Some(cat3("plugins ", count_text(summary.registered).as_str(), " pending"));
    }
    Some(cat3("plugins ", count_text(summary.active).as_str(), " ok"))
}

/// Something failed.
pub open spec fn is_alert(h: PluginHealthSummary) -> bool {
    h.failed > 0 || h.error_count > 0
}

/// Whether something failed.
pub fn plugin_health_is_alert(summary: &PluginHealthSummary) -> (r: bool)
    ensures
        r == is_alert(*summary),
{
    summary.failed > 0 || summary.error_count > 0
}

/// Something is not running.
pub open spec fn is_warning(h: PluginHealthSummary) -> bool {
    h.disabled > 0 || h.registered > 0
}

/// Whether something is not running.
pub fn plugin_health_is_warning(summary: &PluginHealthSummary) -> (r: bool)
    ensures
        r == is_warning(*summary),
{
    summary.disabled > 0 || summary.registered > 0
}

// ── reload reports ──────────────────────────────────────────────────────

/// How many descriptors of each sort the plugins announce.
#[derive(Debug, Clone, Copy, PartialEq, Eq, Structural)]
pub struct PluginDescriptorCounts {
    pub plugins: usize,
    pub active_plugins: usize,
    pub failed_plugins: usize,
    pub hooks: usize,
    pub services: usize,
    pub tools: usize,
    pub providers: usize,
    pub resources: usize,
    pub commands: usize,
    pub ui_slots: usize,
    pub ui_panels: usize,
    pub ui_widgets: usize,
    pub runtime_actions: usize,
    pub runtime_extensions: usize,
    pub agent_launches: usize,
    pub metrics: usize,
    pub errors: usize,
}

#[derive(Debug, Clone, Copy, PartialEq, Eq, Structural)]
pub enum PluginDescriptorIssueKind {
    MissingRuntimeAction,
    MissingUiPanel,
    MissingUiWidget,
}

#[derive(Debug, Clone, Copy, PartialEq, Eq, Structural)]
pub enum PluginDescriptorIssueSeverity {
    Error,
    Warning,
}

#[derive(Debug, Clone, Copy, PartialEq, Eq, Structural)]
pub enum PluginDescriptorIssueActionability {
    AddRuntimeAction,
    AddUiPanel,
    AddUiWidget,
    FixReference,
}

#[derive(Debug, Clone, Copy, PartialEq, Eq, Structural)]
pub enum PluginDescriptorKind {
    RuntimeAction,
    UiPanel,
    UiSlot,
    UiWidget,
}

#[derive(Debug, Clone, Copy, PartialEq, Eq, Structural)]
pub enum PluginDescriptorTargetKind {
    RuntimeAction,
    UiPanel,
    UiWidget,
}

/// A descriptor that points at something missing.
#[derive(Debug, Clone)]
pub struct PluginDescriptorIssue {
    pub kind: PluginDescriptorIssueKind,
    pub severity: PluginDescriptorIssueSeverity,
    pub actionability: PluginDescriptorIssueActionability,
    pub plugin_id: String,
    pub descriptor_kind: PluginDescriptorKind,
    pub descriptor_id: String,
    pub target_plugin_id: String,
    pub target_kind: PluginDescriptorTargetKind,
    pub target_id: String,
    pub repair_hint: String,
}

/// What the host says about its plugins.
#[derive(Debug, Clone)]
pub struct PluginHostDiagnostics {
    pub health: PluginHealthSummary,
    pub counts: PluginDescriptorCounts,
    pub descriptor_digest: String,
    pub descriptor_issues: Vec<PluginDescriptorIssue>,
}

/// What a reload found.
#[derive(Debug, Clone)]
pub struct PluginReloadReport {
    pub diagnostics: PluginHostDiagnostics,
    pub changed: Option<bool>,
}

/// The health that the details are about: that of the reload, where it saw any
/// plugins.
pub open spec fn detail_health(summary: PluginHealthSummary, report: Option<PluginReloadReport>) -> PluginHealthSummary {
    match report {
        Some(r) => if r.diagnostics.health.total > 0 {
            r.diagnostics.health
        } else {
            summary
        },
        None => summary,
    }
}

/// The report, where there is one.
pub open spec fn report_of(report: Option<&PluginReloadReport>) -> Option<PluginReloadReport> {
    match report {
        Some(r) => Some(*r),
        None => None,
    }
}

/// The health that the details are about.
pub fn plugin_detail_health(summary: &PluginHealthSummary, reload_report: Option<&PluginReloadReport>) -> (r:
    PluginHealthSummary)
    ensures
        r == detail_health(*summary, report_of(reload_report)),
{
    match reload_report {
        Some(report) => if report.diagnostics.health.total > 0 {
            report.diagnostics.health
        } else {
            *summary
        },
        None => *summary,
    }
}

// ── detail rows ─────────────────────────────────────────────────────────

/// How a detail row is coloured.
#[derive(Debug, Clone, Copy, PartialEq, Eq, Structural)]
pub enum PluginDetailRowTone {
    Health,
    Muted,
    Error,
    Warning,
}

/// One row of plugin details.
#[derive(Debug, Clone, PartialEq, Eq)]
pub struct PluginDetailRow {
    pub text: String,
    pub tone: PluginDetailRowTone,
}

impl View for PluginDetailRow {
    type V = (Seq<char>, PluginDetailRowTone);

    open spec fn view(&self) -> (Seq<char>, PluginDetailRowTone) {
        (self.text@, self.tone)
    }
}

/// What a list of detail rows says.
pub open spec fn detail_rows(v: Seq<PluginDetailRow>) -> Seq<(Seq<char>, PluginDetailRowTone)> {
    v.map_values(|r: PluginDetailRow| r@)
}

/// One row, if the condition holds.
pub open spec fn row_if(holds: bool, text: Seq<char>, tone: PluginDetailRowTone) -> Seq<
    (Seq<char>, PluginDetailRowTone),
> {
    if holds {
        seq![(text, tone)]
    } else {
        Seq::empty()
    }
}

fn push_row_if(rows: &mut Vec<PluginDetailRow>, holds: bool, text: String, tone: PluginDetailRowTone)
    ensures
        detail_rows(final(rows)@) == detail_rows(old(rows)@) + row_if(holds, text@, tone),
{
    if holds {
        rows.push(PluginDetailRow { text, tone });
    }
    assert(detail_rows(rows@) =~= detail_rows(old(rows)@) + row_if(holds, text@, tone));
}

/// The rows about the state of health.
pub open spec fn health_rows(h: PluginHealthSummary) -> Seq<(Seq<char>, PluginDetailRowTone)> {
    row_if(true, decimal(h.active as nat) + "/"@ + decimal(h.total as nat) + " active"@, PluginDetailRowTone::Health)
        + row_if(h.failed > 0, decimal(h.failed as nat) + " failed"@, PluginDetailRowTone::Muted) + row_if(
        h.error_count > 0,
        decimal(h.error_count as nat) + " errors"@,
        PluginDetailRowTone::Muted,
    ) + row_if(h.disabled > 0, decimal(h.disabled as nat) + " disabled"@, PluginDetailRowTone::Muted) + row_if(
        h.registered > 0,
        decimal(h.registered as nat) + " pending activation"@,
        PluginDetailRowTone::Muted,
    )
}

fn push_health_rows(rows: &mut Vec<PluginDetailRow>, h: PluginHealthSummary)
    ensures
        detail_rows(final(rows)@) == detail_rows(old(rows)@) + health_rows(h),
{
    let ghost before = detail_rows(rows@);
    push_row_if(
        rows,
        true,
        cat4(count_text(h.active).as_str(), "/", count_text(h.total).as_str(), " active"),
        PluginDetailRowTone::Health,
    );
    push_row_if(rows, h.failed > 0, cat2(count_text(h.failed).as_str(), " failed"), PluginDetailRowTone::Muted);
    push_row_if(
        rows,
        h.error_count > 0,
        cat2(count_text(h.error_count).as_str(), " errors"),
        PluginDetailRowTone::Muted,
    );
    push_row_if(rows, h.disabled > 0, cat2(count_text(h.disabled).as_str(), " disabled"), PluginDetailRowTone::Muted);
    push_row_if(
        rows,
        h.registered > 0,
        cat2(count_text(h.registered).as_str(), " pending activation"),
        PluginDetailRowTone::Muted,
    );
    assert(detail_rows(rows@) =~= before + health_rows(h));
}

/// Whether the descriptors are new, in words.
pub open spec fn change_words(changed: Option<bool>) -> Seq<char> {
    match changed {
        Some(true) => "descriptors changed"@,
        Some(false) => "descriptors unchanged"@,
        None => "descriptors fresh"@,
    }
}

fn change_label(changed: Option<bool>) -> (r: &'static str)
    ensures
        r@ == change_words(changed),
{
    match changed {
        Some(true) => "descriptors changed",
        Some(false) => "descriptors unchanged",
        None => "descriptors fresh",
    }
}

/// The counts that every report shows.
pub open spec fn counts_words(c: PluginDescriptorCounts) -> Seq<char> {
    "tools "@ + decimal(c.tools as nat) + " · resources "@ + decimal(c.resources as nat) + " · ui slots "@ + decimal(
        c.ui_slots as nat,
    ) + " · actions "@ + decimal(c.runtime_actions as nat) + " · runtime ext "@ + decimal(
        c.runtime_extensions as nat,
    ) + " · agent launches "@ + decimal(c.agent_launches as nat)
}

fn counts_text(c: &PluginDescriptorCounts) -> (r: String)
    ensures
        r@ == counts_words(*c),
{
    let mut out = "tools ".to_owned();
    out.push_str(count_text(c.tools).as_str());
    out.push_str(" · resources ");
    out.push_str(count_text(c.resources).as_str());
    out.push_str(" · ui slots ");
    out.push_str(count_text(c.ui_slots).as_str());
    out.push_str(" · actions ");
    out.push_str(count_text(c.runtime_actions).as_str());
    out.push_str(" · runtime ext ");
    out.push_str(count_text(c.runtime_extensions).as_str());
    out.push_str(" · agent launches ");
    out.push_str(count_text(c.agent_launches).as_str());
    out
}

/// The rows of one report, without its issues.
pub open spec fn report_rows(r: PluginReloadReport) -> Seq<(Seq<char>, PluginDetailRowTone)> {
    let c = r.diagnostics.counts;
    row_if(true, change_words(r.changed), PluginDetailRowTone::Muted) + row_if(
        true,
        "digest "@ + r.diagnostics.descriptor_digest@,
        PluginDetailRowTone::Muted,
    ) + row_if(true, counts_words(c), PluginDetailRowTone::Muted) + row_if(
        c.ui_widgets > 0,
        "widgets "@ + decimal(c.ui_widgets as nat),
        PluginDetailRowTone::Muted,
    ) + row_if(c.ui_panels > 0, "panels "@ + decimal(c.ui_panels as nat), PluginDetailRowTone::Muted) + row_if(
        c.metrics > 0,
        "metrics "@ + decimal(c.metrics as nat),
        PluginDetailRowTone::Muted,
    ) + row_if(
        r.diagnostics.descriptor_issues@.len() > 0,
        "descriptor issues "@ + decimal(r.diagnostics.descriptor_issues@.len()),
        PluginDetailRowTone::Muted,
    )
}

fn push_report_rows(rows: &mut Vec<PluginDetailRow>, report: &PluginReloadReport)
    ensures
        detail_rows(final(rows)@) == detail_rows(old(rows)@) + report_rows(*report),
{
    let ghost before = detail_rows(rows@);
    let c = &report.diagnostics.counts;
    let issues: usize = report.diagnostics.descriptor_issues.len();
    push_row_if(rows, true, change_label(report.changed).to_owned(), PluginDetailRowTone::Muted);
    push_row_if(
        rows,
        true,
        cat2("digest ", report.diagnostics.descriptor_digest.as_str()),
        PluginDetailRowTone::Muted,
    );
    push_row_if(rows, true, counts_text(c), PluginDetailRowTone::Muted);
    push_row_if(
        rows,
        c.ui_widgets > 0,
        cat2("widgets ", count_text(c.ui_widgets).as_str()),
        PluginDetailRowTone::Muted,
    );
    push_row_if(rows, c.ui_panels > 0, cat2("panels ", count_text(c.ui_panels).as_str()), PluginDetailRowTone::Muted);
    push_row_if(rows, c.metrics > 0, cat2("metrics ", count_text(c.metrics).as_str()), PluginDetailRowTone::Muted);
    push_row_if(
        rows,
        issues > 0,
        cat2("descriptor issues ", count_text(issues).as_str()),
        PluginDetailRowTone::Muted,
    );
    assert(detail_rows(rows@) =~= before + report_rows(*report));
}

// ── issues ──────────────────────────────────────────────────────────────

pub open spec fn severity_words(s: PluginDescriptorIssueSeverity) -> Seq<char> {
    match s {
        PluginDescriptorIssueSeverity::Error => "error"@,
        PluginDescriptorIssueSeverity::Warning => "warning"@,
    }
}

fn issue_severity_label(s: PluginDescriptorIssueSeverity) -> (r: &'static str)
    ensures
        r@ == severity_words(s),
{
    match s {
        PluginDescriptorIssueSeverity::Error => "error",
        PluginDescriptorIssueSeverity::Warning => "warning",
    }
}

pub open spec fn severity_tone(s: PluginDescriptorIssueSeverity) -> PluginDetailRowTone {
    match s {
        PluginDescriptorIssueSeverity::Error => PluginDetailRowTone::Error,
        PluginDescriptorIssueSeverity::Warning => PluginDetailRowTone::Warning,
    }
}

fn descriptor_issue_tone(s: PluginDescriptorIssueSeverity) -> (r: PluginDetailRowTone)
    ensures
        r == severity_tone(s),
{
    match s {
        PluginDescriptorIssueSeverity::Error => PluginDetailRowTone::Error,
        PluginDescriptorIssueSeverity::Warning => PluginDetailRowTone::Warning,
    }
}

pub open spec fn actionability_words(a: PluginDescriptorIssueActionability) -> Seq<char> {
    match a {
        PluginDescriptorIssueActionability::AddRuntimeAction => "add_runtime_action"@,
        PluginDescriptorIssueActionability::AddUiPanel => "add_ui_panel"@,
        PluginDescriptorIssueActionability::AddUiWidget => "add_ui_widget"@,
        PluginDescriptorIssueActionability::FixReference => "fix_reference"@,
    }
}

fn issue_actionability_label(a: PluginDescriptorIssueActionability) -> (r: &'static str)
    ensures
        r@ == actionability_words(a),
{
    match a {
        PluginDescriptorIssueActionability::AddRuntimeAction => "add_runtime_action",
        PluginDescriptorIssueActionability::AddUiPanel => "add_ui_panel",
        PluginDescriptorIssueActionability::AddUiWidget => "add_ui_widget",
        PluginDescriptorIssueActionability::FixReference => "fix_reference",
    }
}

pub open spec fn issue_kind_words(k: PluginDescriptorIssueKind) -> Seq<char> {
    match k {
        PluginDescriptorIssueKind::MissingRuntimeAction => "missing_runtime_action"@,
        PluginDescriptorIssueKind::MissingUiPanel => "missing_ui_panel"@,
        PluginDescriptorIssueKind::MissingUiWidget => "missing_ui_widget"@,
    }
}

fn issue_kind_label(k: PluginDescriptorIssueKind) -> (r: &'static str)
    ensures
        r@ == issue_kind_words(k),
{
    match k {
        PluginDescriptorIssueKind::MissingRuntimeAction => "missing_runtime_action",
        PluginDescriptorIssueKind::MissingUiPanel => "missing_ui_panel",
        PluginDescriptorIssueKind::MissingUiWidget => "missing_ui_widget",
    }
}

pub open spec fn descriptor_kind_words(k: PluginDescriptorKind) -> Seq<char> {
    match k {
        PluginDescriptorKind::RuntimeAction => "runtime_action"@,
        PluginDescriptorKind::UiPanel => "ui_panel"@,
        PluginDescriptorKind::UiSlot => "ui_slot"@,
        PluginDescriptorKind::UiWidget => "ui_widget"@,
    }
}

fn descriptor_kind_label(k: PluginDescriptorKind) -> (r: &'static str)
    ensures
        r@ == descriptor_kind_words(k),
{
    match k {
        PluginDescriptorKind::RuntimeAction => "runtime_action",
        PluginDescriptorKind::UiPanel => "ui_panel",
        PluginDescriptorKind::UiSlot => "ui_slot",
        PluginDescriptorKind::UiWidget => "ui_widget",
    }
}

pub open spec fn target_kind_words(k: PluginDescriptorTargetKind) -> Seq<char> {
    match k {
        PluginDescriptorTargetKind::RuntimeAction => "runtime_action"@,
        PluginDescriptorTargetKind::UiPanel => "ui_panel"@,
        PluginDescriptorTargetKind::UiWidget => "ui_widget"@,
    }
}

fn target_kind_label(k: PluginDescriptorTargetKind) -> (r: &'static str)
    ensures
        r@ == target_kind_words(k),
{
    match k {
        PluginDescriptorTargetKind::RuntimeAction => "runtime_action",
        PluginDescriptorTargetKind::UiPanel => "ui_panel",
        PluginDescriptorTargetKind::UiWidget => "ui_widget",
    }
}

/// An issue in words.
pub open spec fn issue_words(i: PluginDescriptorIssue) -> Seq<char> {
    severity_words(i.severity) + " "@ + actionability_words(i.actionability) + " "@ + issue_kind_words(i.kind)
        + ": "@ + descriptor_kind_words(i.descriptor_kind) + ":"@ + i.plugin_id@ + ":"@ + i.descriptor_id@
        + " -> "@ + target_kind_words(i.target_kind) + ":"@ + i.target_plugin_id@ + ":"@ + i.target_id@
}

fn descriptor_issue_detail_row(issue: &PluginDescriptorIssue) -> (r: String)
    ensures
        r@ == issue_words(*issue),
{
    let mut out = issue_severity_label(issue.severity).to_owned();
    out.push_str(" ");
    out.push_str(issue_actionability_label(issue.actionability));
    out.push_str(" ");
    out.push_str(issue_kind_label(issue.kind));
    out.push_str(": ");
    out.push_str(descriptor_kind_label(issue.descriptor_kind));
    out.push_str(":");
    out.push_str(issue.plugin_id.as_str());
    out.push_str(":");
    out.push_str(issue.descriptor_id.as_str());
    out.push_str(" -> ");
    out.push_str(target_kind_label(issue.target_kind));
    out.push_str(":");
    out.push_str(issue.target_plugin_id.as_str());
    out.push_str(":");
    out.push_str(issue.target_id.as_str());
    out
}

/// Two rows for each issue: what it is, and how to repair it.
pub open spec fn issue_rows(issues: Seq<PluginDescriptorIssue>) -> Seq<(Seq<char>, PluginDetailRowTone)>
    decreases issues.len(),
{
    if issues.len() == 0 {
        Seq::empty()
    } else {
        let i = issues.last();
        issue_rows(issues.drop_last()) + row_if(true, issue_words(i), severity_tone(i.severity)) + row_if(
            true,
            "fix "@ + i.repair_hint@,
            PluginDetailRowTone::Muted,
        )
    }
}

fn push_issue_rows(rows: &mut Vec<PluginDetailRow>, issues: &Vec<PluginDescriptorIssue>)
    ensures
        detail_rows(final(rows)@) == detail_rows(old(rows)@) + issue_rows(issues@),
{
    let ghost before = detail_rows(rows@);
    let mut i: usize = 0;
    assert(before + issue_rows(issues@.take(0)) =~= before);
    while i < issues.len()
        invariant
            i <= issues@.len(),
            detail_rows(rows@) == before + issue_rows(issues@.take(i as int)),
        decreases issues@.len() - i,
    {
        assert(issues@.take(i + 1).drop_last() =~= issues@.take(i as int));
        let issue = &issues[i];
        push_row_if(rows, true, descriptor_issue_detail_row(issue), descriptor_issue_tone(issue.severity));
        push_row_if(rows, true, cat2("fix ", issue.repair_hint.as_str()), PluginDetailRowTone::Muted);
        assert(detail_rows(rows@) =~= before + issue_rows(issues@.take(i + 1)));
        i += 1;
    }
    assert(issues@.take(i as int) =~= issues@);
}

// ── diagnostics actions ─────────────────────────────────────────────────

/// The first action that runs the diagnostics.
pub open spec fn diagnostics_action(actions: Seq<RuntimeActionDescriptor>, from: int) -> Option<RuntimeActionDescriptor>
    decreases actions.len() - from,
{
    if from < 0 || from >= actions.len() {
        None
    } else if actions[from].kind == RuntimeActionKind::PluginDiagnostics {
        Some(actions[from])
    } else {
        diagnostics_action(actions, from + 1)
    }
}

/// How many smoke checks there are.
pub open spec fn smoke_checks(actions: Seq<RuntimeActionDescriptor>) -> nat
    decreases actions.len(),
{
    if actions.len() == 0 {
        0
    } else {
        smoke_checks(actions.drop_last()) + (if actions.last().kind == RuntimeActionKind::PluginSmoke {
            1nat
        } else {
            0
        })
    }
}

/// The rows about the diagnostics, where some action runs them.
pub open spec fn diagnostics_rows(actions: Seq<RuntimeActionDescriptor>) -> Seq<(Seq<char>, PluginDetailRowTone)> {
    match diagnostics_action(actions, 0) {
        None => Seq::empty(),
        Some(a) => row_if(true, "diagnostics action "@ + a.label@, PluginDetailRowTone::Muted) + row_if(
            smoke_checks(actions) > 0,
            "diagnostics smoke checks "@ + decimal(smoke_checks(actions)),
            PluginDetailRowTone::Muted,
        ),
    }
}

fn push_plugin_diagnostics_rows(rows: &mut Vec<PluginDetailRow>, actions: &[RuntimeActionDescriptor])
    ensures
        detail_rows(final(rows)@) == detail_rows(old(rows)@) + diagnostics_rows(actions@),
{
    let ghost before = detail_rows(rows@);
    let mut i: usize = 0;
    while i < actions.len() && actions[i].kind != RuntimeActionKind::PluginDiagnostics
        invariant
            i <= actions@.len(),
            diagnostics_action(actions@, 0) == diagnostics_action(actions@, i as int),
        decreases actions@.len() - i,
    {
        i += 1;
    }
    if i >= actions.len() {
        assert(before + diagnostics_rows(actions@) =~= before);
        return;
    }
    push_row_if(rows, true, cat2("diagnostics action ", actions[i].label.as_str()), PluginDetailRowTone::Muted);
    let mut checks: usize = 0;
    let mut k: usize = 0;
    assert(actions@.take(0) =~= Seq::<RuntimeActionDescriptor>::empty());
    while k < actions.len()
        invariant
            k <= actions@.len(),
            checks <= k,
            checks == smoke_checks(actions@.take(k as int)),
        decreases actions@.len() - k,
    {
        assert(actions@.take(k + 1).drop_last() =~= actions@.take(k as int));
        if actions[k].kind == RuntimeActionKind::PluginSmoke {
            checks += 1;
        }
        k += 1;
    }
    assert(actions@.take(k as int) =~= actions@);
    push_row_if(
        rows,
        checks > 0,
        cat2("diagnostics smoke checks ", count_text(checks).as_str()),
        PluginDetailRowTone::Muted,
    );
    assert(detail_rows(rows@) =~= before + diagnostics_rows(actions@));
}

// ── all details ─────────────────────────────────────────────────────────

/// All rows of plugin details: none where there are no plugins.
pub open spec fn plugin_details(
    summary: PluginHealthSummary,
    report: Option<PluginReloadReport>,
    actions: Seq<RuntimeActionDescriptor>,
) -> Seq<(Seq<char>, PluginDetailRowTone)> {
    let health = detail_health(summary, report);
    if health.total == 0 {
        Seq::empty()
    } else {
        match report {
            None => health_rows(health) + diagnostics_rows(actions),
            Some(r) => health_rows(health) + report_rows(r) + issue_rows(r.diagnostics.descriptor_issues@)
                + diagnostics_rows(actions),
        }
    }
}

/// The rows of plugin details.
pub fn plugin_health_detail_render_rows(
    summary: &PluginHealthSummary,
    reload_report: Option<&PluginReloadReport>,
    runtime_actions: &[RuntimeActionDescriptor],
) -> (r: Vec<PluginDetailRow>)
    ensures
        detail_rows(r@) == plugin_details(*summary, report_of(reload_report), runtime_actions@),
{
    let health = plugin_detail_health(summary, reload_report);
    let mut rows: Vec<PluginDetailRow> = Vec::new();
    assert(detail_rows(rows@) =~= Seq::empty());
    if health.total == 0 {
        return rows;
    }
    push_health_rows(&mut rows, health);
    assert(detail_rows(rows@) =~= health_rows(health));
    if let Some(report) = reload_report {
        push_report_rows(&mut rows, report);
        push_issue_rows(&mut rows, &report.diagnostics.descriptor_issues);
    }
    push_plugin_diagnostics_rows(&mut rows, runtime_actions);
    rows
}

/// The first row always says how many plugins run.
pub proof fn law_details_start_with_health(
    summary: PluginHealthSummary,
    report: Option<PluginReloadReport>,
    actions: Seq<RuntimeActionDescriptor>,
)
    ensures
        detail_health(summary, report).total == 0 <==> plugin_details(summary, report, actions).len() == 0,
        detail_health(summary, report).total > 0 ==> plugin_details(summary, report, actions)[0] == (
            decimal(detail_health(summary, report).active as nat) + "/"@ + decimal(
                detail_health(summary, report).total as nat,
            ) + " active"@,
            PluginDetailRowTone::Health,
        ),
{
}

// ── metric rows ─────────────────────────────────────────────────────────

/// One text, if the condition holds.
pub open spec fn text_if(holds: bool, text: Seq<char>) -> Seq<Seq<char>> {
    if holds {
        seq![text]
    } else {
        Seq::empty()
    }
}

fn push_text_if(rows: &mut Vec<String>, holds: bool, text: String)
    ensures
        texts(final(rows)@) == texts(old(rows)@) + text_if(holds, text@),
{
    if holds {
        rows.push(text);
    }
    assert(texts(rows@) =~= texts(old(rows)@) + text_if(holds, text@));
}

/// The cache rows of the sidebar, for a hit rate in whole percent.
pub open spec fn cache_rows(
    metrics: Seq<MetricDescriptor>,
    usage: Seq<(String, ModelUsage)>,
    hit_pct: Option<u64>,
    report: Option<PluginReloadReport>,
) -> Seq<Seq<char>> {
    let hit = match hit_pct {
        Some(pct) => text_if(
            surfaced(metrics, BUILTIN_CACHE_HIT_METRIC_ID@, MetricSurface::Sidebar),
            "cache hit "@ + decimal(pct as nat) + "% ("@ + grouped(cache_read_total(usage)) + " read / "@ + grouped(
                input_total(usage),
            ) + " input)"@,
        ),
        None => Seq::empty(),
    };
    let digest = match report {
        Some(r) => {
            let on = surfaced(metrics, BUILTIN_CACHE_DIGEST_METRIC_ID@, MetricSurface::Sidebar);
            text_if(on, change_words(r.changed)) + text_if(
                on,
                "descriptor digest "@ + r.diagnostics.descriptor_digest@,
            )
        },
        None => Seq::empty(),
    };
    hit + digest
}

/// The cache rows of the sidebar, for a hit rate in whole percent.
pub fn cache_metric_rows(
    metrics: &[MetricDescriptor],
    usage: &Vec<(String, ModelUsage)>,
    hit_pct: Option<u64>,
    reload_report: Option<&PluginReloadReport>,
) -> (r: Vec<String>)
    requires
        cache_read_total(usage@) <= u64::MAX,
        input_total(usage@) <= u64::MAX,
    ensures
        texts(r@) == cache_rows(metrics@, usage@, hit_pct, report_of(reload_report)),
{
    let mut rows: Vec<String> = Vec::new();
    if let Some(pct) = hit_pct {
        let on = has_metric_surface(metrics, BUILTIN_CACHE_HIT_METRIC_ID, MetricSurface::Sidebar);
        let mut text = cat4(
            "cache hit ",
            decimal_text(pct).as_str(),
            "% (",
            fmt_number(total_cache_read_tokens(usage)).as_str(),
        );
        text.push_str(" read / ");
        text.push_str(fmt_number(total_input_tokens(usage)).as_str());
        text.push_str(" input)");
        push_text_if(&mut rows, on, text);
    }
    if let Some(report) = reload_report {
        let on = has_metric_surface(metrics, BUILTIN_CACHE_DIGEST_METRIC_ID, MetricSurface::Sidebar);
        push_text_if(&mut rows, on, change_label(report.changed).to_owned());
        push_text_if(
            &mut rows,
            on,
            cat2("descriptor digest ", report.diagnostics.descriptor_digest.as_str()),
        );
    }
    assert(texts(rows@) =~= cache_rows(metrics@, usage@, hit_pct, report_of(reload_report)));
    rows
}

/// What the last request says about learned prompts.
#[derive(Debug, Clone, Copy, PartialEq, Eq, Structural)]
pub struct RsiCounts {
    pub rsi_prompt_sections: usize,
    pub rsi_tool_visibility_rules: usize,
}

/// The rows about learned prompts.
pub open spec fn rsi_rows(metrics: Seq<MetricDescriptor>, counts: Option<RsiCounts>) -> Seq<Seq<char>> {
    match counts {
        None => Seq::empty(),
        Some(c) => text_if(
            surfaced(metrics, BUILTIN_RSI_PROMPT_SECTIONS_METRIC_ID@, MetricSurface::Sidebar),
            "rsi prompt sections "@ + decimal(c.rsi_prompt_sections as nat),
        ) + text_if(
            surfaced(metrics, BUILTIN_RSI_TOOL_VISIBILITY_METRIC_ID@, MetricSurface::Sidebar),
            "rsi tool visibility rules "@ + decimal(c.rsi_tool_visibility_rules as nat),
        ),
    }
}

/// The rows about learned prompts: none before the first request.
pub fn rsi_metric_rows(metrics: &[MetricDescriptor], counts: Option<RsiCounts>) -> (r: Vec<String>)
    ensures
        texts(r@) == rsi_rows(metrics@, counts),
{
    let mut rows: Vec<String> = Vec::new();
    if let Some(c) = counts {
        let prompts = has_metric_surface(metrics, BUILTIN_RSI_PROMPT_SECTIONS_METRIC_ID, MetricSurface::Sidebar);
        push_text_if(
            &mut rows,
            prompts,
            cat2("rsi prompt sections ", count_text(c.rsi_prompt_sections).as_str()),
        );
        let rules = has_metric_surface(metrics, BUILTIN_RSI_TOOL_VISIBILITY_METRIC_ID, MetricSurface::Sidebar);
        push_text_if(
            &mut rows,
            rules,
            cat2("rsi tool visibility rules ", count_text(c.rsi_tool_visibility_rules).as_str()),
        );
    }
    assert(texts(rows@) =~= rsi_rows(metrics@, counts));
    rows
}

/// The metrics that are shown in the panel.
pub open spec fn panel_metrics(metrics: Seq<MetricDescriptor>) -> Seq<MetricDescriptor>
    decreases metrics.len(),
{
    if metrics.len() == 0 {
        metrics
    } else if shown_on(metrics.last(), MetricSurface::Panel) {
        panel_metrics(metrics.drop_last()).push(metrics.last())
    } else {
        panel_metrics(metrics.drop_last())
    }
}

pub open spec fn unit_words(unit: MetricUnit) -> Seq<char> {
    match unit {
        MetricUnit::Count => "count"@,
        MetricUnit::Percent => "percent"@,
        MetricUnit::Tokens => "tokens"@,
        MetricUnit::Usd => "usd"@,
        MetricUnit::Digest => "digest"@,
        MetricUnit::Text => "text"@,
    }
}

fn metric_unit_label(unit: MetricUnit) -> (r: &'static str)
    ensures
        r@ == unit_words(unit),
{
    match unit {
        MetricUnit::Count => "count",
        MetricUnit::Percent => "percent",
        MetricUnit::Tokens => "tokens",
        MetricUnit::Usd => "usd",
        MetricUnit::Digest => "digest",
        MetricUnit::Text => "text",
    }
}

/// A metric in words.
pub open spec fn metric_row(m: MetricDescriptor) -> Seq<char> {
    m.label@ + " · "@ + unit_words(m.unit) + " · "@ + m.plugin_id@ + ":"@ + m.id@
}

/// A metric in words.
pub fn metric_descriptor_row(metric: &MetricDescriptor) -> (r: String)
    ensures
        r@ == metric_row(*metric),
{
    let mut out = cat6(
        metric.label.as_str(),
        " · ",
        metric_unit_label(metric.unit),
        " · ",
        metric.plugin_id.as_str(),
        ":",
    );
    out.push_str(metric.id.as_str());
    out
}

/// The panel's metrics in words, in listing order.
pub open spec fn panel_metric_rows(metrics: Seq<MetricDescriptor>) -> Seq<Seq<char>> {
    sorted(panel_metrics(metrics), listing::<MetricDescriptor>()).map_values(|m: MetricDescriptor| metric_row(m))
}

/// The panel's metrics in words, in listing order.
pub fn metric_panel_descriptor_rows(metrics: &[MetricDescriptor]) -> (r: Vec<String>)
    ensures
        texts(r@) == panel_metric_rows(metrics@),
{
    let mut kept: Vec<&MetricDescriptor> = Vec::new();
    let mut i: usize = 0;
    assert(items_of(kept@) =~= panel_metrics(metrics@.take(0)));
    while i < metrics.len()
        invariant
            i <= metrics@.len(),
            items_of(kept@) == panel_metrics(metrics@.take(i as int)),
        decreases metrics@.len() - i,
    {
        let ghost before = kept@;
        assert(metrics@.take(i + 1).drop_last() =~= metrics@.take(i as int));
        if is_shown_on(&metrics[i], MetricSurface::Panel) {
            kept.push(&metrics[i]);
            assert(items_of(kept@) =~= items_of(before).push(metrics@[i as int]));
        }
        i += 1;
    }
    assert(metrics@.take(i as int) =~= metrics@);
    let ordered = in_listing_order(kept);
    let ghost goal = panel_metric_rows(metrics@);
    let mut rows: Vec<String> = Vec::new();
    let mut k: usize = 0;
    assert(texts(rows@) =~= goal.take(0));
    while k < ordered.len()
        invariant
            k <= ordered@.len(),
            goal == items_of(ordered@).map_values(|m: MetricDescriptor| metric_row(m)),
            texts(rows@) == goal.take(k as int),
        decreases ordered@.len() - k,
    {
        rows.push(metric_descriptor_row(ordered[k]));
        assert(goal.take(k + 1) =~= goal.take(k as int).push(metric_row(*ordered@[k as int])));
        k += 1;
    }
    assert(goal.take(k as int) =~= goal);
    rows
}

/// Every model counts for the totals.
pub proof fn law_every_model_counts(usage: Seq<(String, ModelUsage)>, one: (String, ModelUsage))
    ensures
        cache_read_total(usage.push(one)) == cache_read_total(usage) + one.1.cache_read_tokens,
        input_total(usage.push(one)) == input_total(usage) + one.1.input_tokens,
{
    assert(usage.push(one).drop_last() =~= usage);
}

/// The badge tells of failures first, then of errors, and counts them; without either it
/// counts the plugins that work, and without plugins there is none.
pub proof fn law_badge_tells_the_worst(h: PluginHealthSummary)
    ensures
        health_badge(h) is None <==> h.total == 0,
        h.total > 0 && h.failed > 0 ==> has_text(health_badge(h)->0, decimal(h.failed as nat) + " failed"@),
        h.total > 0 && h.failed == 0 && h.error_count > 0 ==> has_text(
            health_badge(h)->0,
            decimal(h.error_count as nat) + " errors"@,
        ),
        h.total > 0 && !is_alert(h) && !is_warning(h) ==> has_text(
            health_badge(h)->0,
            decimal(h.active as nat) + " ok"@,
        ),
        is_alert(h) <==> h.failed > 0 || h.error_count > 0,
{
    lemma_counted("plugins "@, h.failed as nat, " failed"@);
    lemma_counted("plugins "@, h.error_count as nat, " errors"@);
    lemma_counted("plugins "@, h.active as nat, " ok"@);
}

proof fn lemma_counted(front: Seq<char>, n: nat, what: Seq<char>)
    ensures
        has_text(front + decimal(n) + what, decimal(n) + what),
{
    lemma_sum_of_three(front, decimal(n), what);
    lemma_has_in_sum(front, decimal(n) + what, decimal(n) + what);
}

/// The latest report decides, where it knows of any plugin; otherwise the summary does.
pub proof fn law_latest_report_decides(summary: PluginHealthSummary, r: PluginReloadReport, other: PluginHealthSummary)
    ensures
        r.diagnostics.health.total > 0 ==> detail_health(summary, Some(r)) == r.diagnostics.health && detail_health(
            other,
            Some(r),
        ) == detail_health(summary, Some(r)),
        r.diagnostics.health.total == 0 ==> detail_health(summary, Some(r)) == summary,
        detail_health(summary, None) == summary,
{
}

/// The details count what works, and whatever does not.
pub proof fn law_details_count_what_fails(h: PluginHealthSummary)
    ensures
        health_rows(h)[0].0 == decimal(h.active as nat) + "/"@ + decimal(h.total as nat) + " active"@,
        h.failed > 0 ==> health_rows(h).contains((decimal(h.failed as nat) + " failed"@, PluginDetailRowTone::Muted)),
        h.error_count > 0 ==> health_rows(h).contains(
            (decimal(h.error_count as nat) + " errors"@, PluginDetailRowTone::Muted),
        ),
        h.disabled > 0 ==> health_rows(h).contains(
            (decimal(h.disabled as nat) + " disabled"@, PluginDetailRowTone::Muted),
        ),
        h.registered > 0 ==> health_rows(h).contains(
            (decimal(h.registered as nat) + " pending activation"@, PluginDetailRowTone::Muted),
        ),
{
    let rows = health_rows(h);
    let failed: int = if h.failed > 0 {
        1
    } else {
        0
    };
    let errors: int = if h.error_count > 0 {
        1
    } else {
        0
    };
    let disabled: int = if h.disabled > 0 {
        1
    } else {
        0
    };
    if h.failed > 0 {
        assert(rows[1] == (decimal(h.failed as nat) + " failed"@, PluginDetailRowTone::Muted));
    }
    if h.error_count > 0 {
        assert(rows[1 + failed] == (decimal(h.error_count as nat) + " errors"@, PluginDetailRowTone::Muted));
    }
    if h.disabled > 0 {
        assert(rows[1 + failed + errors] == (decimal(h.disabled as nat) + " disabled"@, PluginDetailRowTone::Muted));
    }
    if h.registered > 0 {
        assert(rows[1 + failed + errors + disabled] == (
            decimal(h.registered as nat) + " pending activation"@,
            PluginDetailRowTone::Muted,
        ));
    }
}

proof fn lemma_issue_rows_has(issues: Seq<PluginDescriptorIssue>, k: int)
    requires
        0 <= k < issues.len(),
    ensures
        issue_rows(issues).contains((issue_words(issues[k]), severity_tone(issues[k].severity))),
        issue_rows(issues).contains(("fix "@ + issues[k].repair_hint@, PluginDetailRowTone::Muted)),
        issue_rows(issues).len() == 2 * issues.len(),
    decreases issues.len(),
{
    let front = issues.drop_last();
    let before = issue_rows(front);
    let all = issue_rows(issues);
    let words = (issue_words(issues[k]), severity_tone(issues[k].severity));
    let fix = ("fix "@ + issues[k].repair_hint@, PluginDetailRowTone::Muted);
    if front.len() > 0 {
        lemma_issue_rows_has(front, 0);
    }
    if k < front.len() {
        lemma_issue_rows_has(front, k);
        let i = choose|i: int| 0 <= i < before.len() && before[i] == words;
        let j = choose|j: int| 0 <= j < before.len() && before[j] == fix;
        assert(all[i] == words);
        assert(all[j] == fix);
    } else {
        assert(all[before.len() as int] == words);
        assert(all[before.len() + 1int] == fix);
    }
}

/// Every issue is listed with its repair, in the tone of how bad it is, and names both
/// what refers and what is missing.
pub proof fn law_every_issue_is_listed(
    summary: PluginHealthSummary,
    r: PluginReloadReport,
    actions: Seq<RuntimeActionDescriptor>,
    k: int,
)
    requires
        detail_health(summary, Some(r)).total > 0,
        0 <= k < r.diagnostics.descriptor_issues@.len(),
    ensures
        ({
            let issue = r.diagnostics.descriptor_issues@[k];
            let rows = plugin_details(summary, Some(r), actions);
            &&& rows.contains((issue_words(issue), severity_tone(issue.severity)))
            &&& rows.contains(("fix "@ + issue.repair_hint@, PluginDetailRowTone::Muted))
            &&& severity_tone(issue.severity) == PluginDetailRowTone::Error <==> issue.severity
                == PluginDescriptorIssueSeverity::Error
        }),
{
    let issues = r.diagnostics.descriptor_issues@;
    let rows = plugin_details(summary, Some(r), actions);
    let head = health_rows(detail_health(summary, Some(r))) + report_rows(r);
    lemma_issue_rows_has(issues, k);
    let own = issue_rows(issues);
    let words = (issue_words(issues[k]), severity_tone(issues[k].severity));
    let fix = ("fix "@ + issues[k].repair_hint@, PluginDetailRowTone::Muted);
    let i = choose|i: int| 0 <= i < own.len() && own[i] == words;
    let j = choose|j: int| 0 <= j < own.len() && own[j] == fix;
    assert(rows[head.len() + i] == words);
    assert(rows[head.len() + j] == fix);
}

/// An issue's words end in what is missing, and say how bad it is first.
pub proof fn law_issues_name_what_is_missing(i: PluginDescriptorIssue)
    ensures
        has_suffix(issue_words(i), i.target_plugin_id@ + ":"@ + i.target_id@),
        has_prefix(issue_words(i), severity_words(i.severity)),
        has_text(issue_words(i), i.plugin_id@ + ":"@ + i.descriptor_id@),
{
    let front = severity_words(i.severity) + " "@ + actionability_words(i.actionability) + " "@ + issue_kind_words(
        i.kind,
    ) + ": "@ + descriptor_kind_words(i.descriptor_kind) + ":"@;
    let own = i.plugin_id@ + ":"@ + i.descriptor_id@;
    let link = " -> "@ + target_kind_words(i.target_kind) + ":"@;
    let target = i.target_plugin_id@ + ":"@ + i.target_id@;
    let all = issue_words(i);
    assert(all =~= front + own + link + target);
    lemma_three_then(front, own, link, target);
    let s = severity_words(i.severity);
    assert(all.subrange(0, s.len() as int) =~= s);
}

proof fn lemma_three_then(a: Seq<char>, b: Seq<char>, c: Seq<char>, d: Seq<char>)
    ensures
        has_text(a + b + c + d, b),
        has_suffix(a + b + c + d, d),
{
    let all = a + b + c + d;
    lemma_has_in_sum(a, b, b);
    lemma_has_in_sum(a + b, c, b);
    lemma_has_in_sum(a + b + c, d, b);
    assert(all.subrange(all.len() - d.len(), all.len() as int) =~= d);
}

proof fn lemma_panel_metrics(metrics: Seq<MetricDescriptor>, m: MetricDescriptor)
    ensures
        panel_metrics(metrics).contains(m) <==> metrics.contains(m) && shown_on(m, MetricSurface::Panel),
    decreases metrics.len(),
{
    if metrics.len() > 0 {
        let front = metrics.drop_last();
        let before = panel_metrics(front);
        let all = panel_metrics(metrics);
        lemma_panel_metrics(front, m);
        if metrics.contains(m) {
            let k = choose|k: int| 0 <= k < metrics.len() && metrics[k] == m;
            if k < front.len() {
                assert(front[k] == m);
            } else if shown_on(m, MetricSurface::Panel) {
                assert(all[before.len() as int] == m);
            }
        }
        if before.contains(m) {
            let k = choose|k: int| 0 <= k < before.len() && before[k] == m;
            assert(all[k] == m);
        }
        if front.contains(m) {
            let k = choose|k: int| 0 <= k < front.len() && front[k] == m;
            assert(metrics[k] == m);
        }
        if all.contains(m) {
            let k = choose|k: int| 0 <= k < all.len() && all[k] == m;
            if k < before.len() {
                assert(before[k] == m);
            } else {
                assert(metrics[metrics.len() - 1] == m);
            }
        }
    }
}

/// Every metric of the panel has its row there.
pub proof fn law_panel_lists_its_metrics(metrics: Seq<MetricDescriptor>, k: int)
    requires
        0 <= k < metrics.len(),
        metrics[k].surfaces@.contains(MetricSurface::Panel),
    ensures
        panel_metric_rows(metrics).contains(metric_row(metrics[k])),
{
    let m = metrics[k];
    lemma_panel_metrics(metrics, m);
    assert(metrics.contains(m));
    let picked = panel_metrics(metrics);
    let order = sorted(picked, listing::<MetricDescriptor>());
    crate::order::law_sorted_is_a_permutation(picked, listing::<MetricDescriptor>());
    vstd::seq_lib::to_multiset_contains(picked, m);
    vstd::seq_lib::to_multiset_contains(order, m);
    let i = choose|i: int| 0 <= i < order.len() && order[i] == m;
    assert(panel_metric_rows(metrics)[i] == metric_row(m));
}

/// The cache is told of only where a metric asks for it, and then with its percentage.
pub proof fn law_cache_is_told_where_asked_for(metrics: Seq<MetricDescriptor>, pct: u64, k: int)
    ensures
        0 <= k < metrics.len() && metrics[k].id@ == BUILTIN_CACHE_HIT_METRIC_ID@ && metrics[k].surfaces@.contains(
            MetricSurface::StatusLine,
        ) ==> (cache_badge(metrics, Some(pct)) matches Some(t) && has_text(t, decimal(pct as nat) + "%"@)),
        metrics.len() == 0 ==> cache_badge(metrics, Some(pct)) is None,
        cache_badge(metrics, None) is None,
{
    lemma_counted("cache "@, pct as nat, "%"@);
    if 0 <= k < metrics.len() && metrics[k].id@ == BUILTIN_CACHE_HIT_METRIC_ID@ && metrics[k].surfaces@.contains(
        MetricSurface::StatusLine,
    ) {
        assert(shown_on(metrics[k], MetricSurface::StatusLine));
        assert(surfaced(metrics, BUILTIN_CACHE_HIT_METRIC_ID@, MetricSurface::StatusLine));
    }
}

/// The counts of a plugin tell each of its kinds.
pub proof fn law_descriptors_are_counted_by_kind(c: PluginDescriptorCounts)
    ensures
        has_text(counts_words(c), "tools "@ + decimal(c.tools as nat)),
        has_text(counts_words(c), " · resources "@ + decimal(c.resources as nat)),
        has_text(counts_words(c), " · ui slots "@ + decimal(c.ui_slots as nat)),
        has_text(counts_words(c), " · actions "@ + decimal(c.runtime_actions as nat)),
        has_text(counts_words(c), " · runtime ext "@ + decimal(c.runtime_extensions as nat)),
        has_text(counts_words(c), " · agent launches "@ + decimal(c.agent_launches as nat)),
{
    let a = "tools "@ + decimal(c.tools as nat);
    let b = " · resources "@ + decimal(c.resources as nat);
    let d = " · ui slots "@ + decimal(c.ui_slots as nat);
    let e = " · actions "@ + decimal(c.runtime_actions as nat);
    let f = " · runtime ext "@ + decimal(c.runtime_extensions as nat);
    let g = " · agent launches "@ + decimal(c.agent_launches as nat);
    let ab = a + b;
    let abd = ab + d;
    let abde = abd + e;
    let abdef = abde + f;
    lemma_sum_of_three(a, " · resources "@, decimal(c.resources as nat));
    lemma_sum_of_three(ab, " · ui slots "@, decimal(c.ui_slots as nat));
    lemma_sum_of_three(abd, " · actions "@, decimal(c.runtime_actions as nat));
    lemma_sum_of_three(abde, " · runtime ext "@, decimal(c.runtime_extensions as nat));
    lemma_sum_of_three(abdef, " · agent launches "@, decimal(c.agent_launches as nat));
    assert(counts_words(c) == abdef + g);
    lemma_has_in_sum(a, b, a);
    lemma_has_in_sum(ab, d, a);
    lemma_has_in_sum(ab, d, b);
    lemma_has_in_sum(abd, e, a);
    lemma_has_in_sum(abd, e, b);
    lemma_has_in_sum(abd, e, d);
    lemma_has_in_sum(abde, f, a);
    lemma_has_in_sum(abde, f, b);
    lemma_has_in_sum(abde, f, d);
    lemma_has_in_sum(abde, f, e);
    lemma_has_in_sum(abdef, g, a);
    lemma_has_in_sum(abdef, g, b);
    lemma_has_in_sum(abdef, g, d);
    lemma_has_in_sum(abdef, g, e);
    lemma_has_in_sum(abdef, g, f);
}

/// It is told apart whether the descriptors changed, stayed or are new.
pub proof fn law_changes_are_told_apart(a: Option<bool>, b: Option<bool>)
    ensures
        change_words(a) == change_words(b) ==> a == b,
{
    reveal_strlit("descriptors changed");
    reveal_strlit("descriptors unchanged");
    reveal_strlit("descriptors fresh");
    assert("descriptors changed"@.len() == 19 && "descriptors unchanged"@.len() == 21 && "descriptors fresh"@.len()
        == 17);
}

/// Every smoke check counts once, and no other action does.
pub proof fn law_smoke_checks_are_counted(actions: Seq<RuntimeActionDescriptor>, a: RuntimeActionDescriptor)
    ensures
        a.kind == RuntimeActionKind::PluginSmoke ==> smoke_checks(actions.push(a)) == smoke_checks(actions) + 1,
        a.kind != RuntimeActionKind::PluginSmoke ==> smoke_checks(actions.push(a)) == smoke_checks(actions),
{
    assert(actions.push(a).drop_last() =~= actions);
}

/// Where nothing is wrong the badge counts the plugins that are still to start, and once
/// all have started those that run.
pub proof fn law_badge_counts_what_starts(h: PluginHealthSummary)
    requires
        h.total > 0 && h.failed == 0 && h.error_count == 0 && h.disabled == 0,
    ensures
        h.registered > 0 ==> health_badge(h) == Some("plugins "@ + decimal(h.registered as nat) + " pending"@),
        h.registered == 0 ==> health_badge(h) == Some("plugins "@ + decimal(h.active as nat) + " ok"@),
{
}

} // verus!
