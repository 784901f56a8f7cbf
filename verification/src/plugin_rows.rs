//! Panels and widgets of plugins, as rows of text.
use vstd::prelude::*;

use crate::descriptors::{
    in_listing_order, items_of, listing, RefreshStatus, UiMutationScope, UiPanelDescriptor, UiPanelRefreshStatuses,
    UiPanelSnapshots, UiSnapshot, UiWidgetDescriptor, UiWidgetKind, UiWidgetRefreshStatuses, UiWidgetSnapshots,
};
use crate::fitting::non_empty;
use crate::order::sorted;
use crate::showing::{lemma_has_in_sum, lemma_joined_has};
use crate::slicing::{group_texts, has_suffix, has_text, join, joined, lines, lines_of, opt_text, replace_char, texts, trim, trimmed, with_replaced};
use crate::text::{cat2, cat3, cat5, cat6, char_count, chars_of, decimal, decimal_text, same_text, text_between};
use crate::text_map::TextMap;
use crate::time::{Duration, Instant};

verus! {

broadcast use group_texts;

// ── refreshes ───────────────────────────────────────────────────────────

/// Where the snapshots and the refreshes of an item are kept.
pub open spec fn snapshot_key(plugin_id: Seq<char>, scope: UiMutationScope, id: Seq<char>) -> Seq<char> {
    plugin_id + "\0"@ + scope.name() + "\0"@ + id
}

/// Where the snapshots and the refreshes of an item are kept.
pub fn ui_snapshot_key(plugin_id: &str, scope: UiMutationScope, id: &str) -> (r: String)
    ensures
        r@ == snapshot_key(plugin_id@, scope, id@),
{
    cat5(plugin_id, "\0", scope.label(), "\0", id)
}

/// What the map holds under `key`.
pub open spec fn found<V>(map: TextMap<V>, key: Seq<char>) -> Option<V> {
    if map@.contains_key(key) {
        Some(map@[key])
    } else {
        None
    }
}

/// A message on one line of at most eighty characters.
pub open spec fn compacted(value: Seq<char>) -> Seq<char> {
    let flat = with_replaced(with_replaced(value, '\n', ' '), '\r', ' ');
    if flat.len() <= 80 {
        flat
    } else {
        flat.take(77) + "..."@
    }
}

/// A message on one line of at most eighty characters.
pub fn compact_status_text(value: &str) -> (r: String)
    ensures
        r@ == compacted(value@),
{
    let flat = replace_char(replace_char(value, '\n', ' ').as_str(), '\r', ' ');
    let cs = chars_of(flat.as_str());
    if cs.len() <= 80 {
        return flat;
    }
    let head = text_between(&cs, 0, 77);
    assert(cs@.subrange(0, 77) =~= flat@.take(77));
    cat2(head.as_str(), "...")
}

/// How long ago something was.
pub open spec fn ago(seconds: nat) -> Seq<char> {
    if seconds == 0 {
        "just now"@
    } else if seconds < 60 {
        decimal(seconds) + "s ago"@
    } else if seconds / 60 < 60 {
        decimal(seconds / 60) + "m ago"@
    } else {
        decimal(seconds / 60 / 60) + "h ago"@
    }
}

/// How long ago something was.
pub fn relative_duration_label(elapsed: Duration) -> (r: String)
    ensures
        r@ == ago(elapsed.secs()),
{
    let seconds: u64 = elapsed.as_secs();
    if seconds == 0 {
        return "just now".to_owned();
    }
    if seconds < 60 {
        return cat2(decimal_text(seconds).as_str(), "s ago");
    }
    let minutes: u64 = seconds / 60;
    if minutes < 60 {
        return cat2(decimal_text(minutes).as_str(), "m ago");
    }
    cat2(decimal_text(minutes / 60).as_str(), "h ago")
}

/// Whole seconds from `then` to `now`.
pub open spec fn seconds_since(now: Instant, then: Instant) -> nat {
    now.since(then) / 1_000_000_000
}

/// How the last refresh went: the reason of a skip before an error, an error
/// before a success, a success before a mere attempt.
pub open spec fn refresh_words(status: Option<RefreshStatus>, now: Instant) -> Seq<char> {
    match status {
        None => "refreshable"@,
        Some(s) => match s.last_skip_reason {
            Some(reason) => "refresh skipped "@ + compacted(reason@),
            None => match s.last_error {
                Some(error) => "refresh error "@ + compacted(error@),
                None => match s.last_success_at {
                    Some(at) => "refresh ok "@ + ago(seconds_since(now, at)),
                    None => match s.last_attempt_at {
                        Some(at) => "refresh tried "@ + ago(seconds_since(now, at)),
                        None => "refreshable"@,
                    },
                },
            },
        },
    }
}

fn refresh_label(status: Option<&RefreshStatus>, now: Instant) -> (r: String)
    ensures
        r@ == refresh_words(
            match status {
                Some(s) => Some(*s),
                None => None,
            },
            now,
        ),
{
    if let Some(s) = status {
        if let Some(reason) = &s.last_skip_reason {
            return cat2("refresh skipped ", compact_status_text(reason.as_str()).as_str());
        }
        if let Some(error) = &s.last_error {
            return cat2("refresh error ", compact_status_text(error.as_str()).as_str());
        }
        if let Some(at) = s.last_success_at {
            return cat2("refresh ok ", relative_duration_label(now.duration_since(at)).as_str());
        }
        if let Some(at) = s.last_attempt_at {
            return cat2("refresh tried ", relative_duration_label(now.duration_since(at)).as_str());
        }
    }
    "refreshable".to_owned()
}

/// The refresh row, for an item that can be refreshed.
pub open spec fn refresh_row(refresh: Option<String>, status: Option<RefreshStatus>, now: Instant) -> Seq<Seq<char>> {
    match refresh {
        None => Seq::empty(),
        Some(_) => seq![refresh_words(status, now)],
    }
}

/// The body that is shown: what the host heard last, else what the plugin
/// announced.
pub open spec fn shown_body(snapshot: Option<UiSnapshot>, announced: Option<String>) -> Option<Seq<char>> {
    match snapshot {
        Some(s) => if s.body is Some {
            opt_text(s.body)
        } else {
            opt_text(announced)
        },
        None => opt_text(announced),
    }
}

fn body_of(snapshot: Option<&UiSnapshot>, announced: &Option<String>) -> (r: Option<String>)
    ensures
        opt_text(r) == shown_body(
            match snapshot {
                Some(s) => Some(*s),
                None => None,
            },
            *announced,
        ),
{
    if let Some(s) = snapshot {
        if let Some(body) = &s.body {
            return Some(body.clone());
        }
    }
    match announced {
        Some(body) => Some(body.clone()),
        None => None,
    }
}

/// An item that the keyboard focus is on.
#[derive(Debug, Clone)]
pub struct FocusedUiItem {
    pub plugin_id: String,
    pub item_id: String,
}

/// The focus is on the item.
pub open spec fn has_focus(focused: Option<FocusedUiItem>, plugin_id: Seq<char>, id: Seq<char>) -> bool {
    match focused {
        Some(f) => f.plugin_id@ == plugin_id && f.item_id@ == id,
        None => false,
    }
}

/// What stands in front of an item.
pub open spec fn focus_mark(focused: Option<FocusedUiItem>, plugin_id: Seq<char>, id: Seq<char>) -> Seq<char> {
    if has_focus(focused, plugin_id, id) {
        "> "@
    } else {
        ""@
    }
}

fn focus_marker(focused: &Option<FocusedUiItem>, plugin_id: &str, id: &str) -> (r: &'static str)
    ensures
        r@ == focus_mark(*focused, plugin_id@, id@),
{
    match focused {
        Some(f) => if same_text(f.plugin_id.as_str(), plugin_id) && same_text(f.item_id.as_str(), id) {
            "> "
        } else {
            ""
        },
        None => "",
    }
}

// ── panels ──────────────────────────────────────────────────────────────

/// A panel as it is shown.
#[derive(Debug, Clone, PartialEq, Eq)]
pub struct PluginPanelSection {
    pub title: String,
    pub rows: Vec<String>,
}

/// Title and rows of a panel.
pub open spec fn section_model(s: PluginPanelSection) -> (Seq<char>, Seq<Seq<char>>) {
    (s.title@, texts(s.rows@))
}

/// Titles and rows of panels.
pub open spec fn section_models(v: Seq<PluginPanelSection>) -> Seq<(Seq<char>, Seq<Seq<char>>)> {
    v.map_values(|s: PluginPanelSection| section_model(s))
}

/// The lines of a body, trimmed, without the blank ones.
pub open spec fn body_lines(body: Seq<char>) -> Seq<Seq<char>> {
    non_empty(lines_of(body).map_values(|l: Seq<char>| trimmed(l)))
}

fn body_rows(body: &str) -> (r: Vec<String>)
    ensures
        texts(r@) == body_lines(body@),
{
    let all = lines(body);
    let ghost trim_all = texts(all@).map_values(|l: Seq<char>| trimmed(l));
    let mut out: Vec<String> = Vec::new();
    let mut i: usize = 0;
    assert(texts(out@) =~= non_empty(trim_all.take(0)));
    while i < all.len()
        invariant
            i <= all@.len(),
            trim_all == texts(all@).map_values(|l: Seq<char>| trimmed(l)),
            texts(out@) == non_empty(trim_all.take(i as int)),
        decreases all@.len() - i,
    {
        assert(trim_all.take(i + 1).drop_last() =~= trim_all.take(i as int));
        assert(trim_all.take(i + 1).last() == trimmed(all@[i as int]@));
        let line = trim(all[i].as_str());
        if char_count(line.as_str()) > 0 {
            out.push(line);
        }
        i += 1;
    }
    assert(trim_all.take(i as int) =~= trim_all);
    out
}

/// The rows of a panel: its body, its action, its refresh.
pub open spec fn panel_rows(
    panel: UiPanelDescriptor,
    snapshot: Option<UiSnapshot>,
    status: Option<RefreshStatus>,
    now: Instant,
) -> Seq<Seq<char>> {
    let body = match shown_body(snapshot, panel.body) {
        Some(b) => body_lines(b),
        None => Seq::empty(),
    };
    let action = match panel.runtime_action_id {
        Some(id) => seq!["action "@ + id@],
        None => Seq::empty(),
    };
    body + action + refresh_row(panel.refresh, status, now)
}

/// The key of a panel.
pub open spec fn panel_key(panel: UiPanelDescriptor) -> Seq<char> {
    snapshot_key(panel.plugin_id@, panel.scope, panel.id@)
}

/// A panel as it is shown.
pub open spec fn shown_panel(
    panel: UiPanelDescriptor,
    snapshots: UiPanelSnapshots,
    refresh_status: UiPanelRefreshStatuses,
    focused: Option<FocusedUiItem>,
    now: Instant,
) -> (Seq<char>, Seq<Seq<char>>) {
    (
        focus_mark(focused, panel.plugin_id@, panel.id@) + panel.title@ + " · "@ + panel.plugin_id@ + ":"@
            + panel.id@,
        panel_rows(panel, found(snapshots, panel_key(panel)), found(refresh_status, panel_key(panel)), now),
    )
}

fn panel_section(
    panel: &UiPanelDescriptor,
    snapshots: &UiPanelSnapshots,
    refresh_status: &UiPanelRefreshStatuses,
    focused: &Option<FocusedUiItem>,
    now: Instant,
) -> (r: PluginPanelSection)
    ensures
        section_model(r) == shown_panel(*panel, *snapshots, *refresh_status, *focused, now),
{
    let key = ui_snapshot_key(panel.plugin_id.as_str(), panel.scope, panel.id.as_str());
    let mut rows: Vec<String> = match body_of(snapshots.get(key.as_str()), &panel.body) {
        Some(body) => body_rows(body.as_str()),
        None => Vec::new(),
    };
    if let Some(action_id) = &panel.runtime_action_id {
        rows.push(cat2("action ", action_id.as_str()));
    }
    if panel.refresh.is_some() {
        rows.push(refresh_label(refresh_status.get(key.as_str()), now));
    }
    assert(texts(rows@) =~= panel_rows(
        *panel,
        found(*snapshots, panel_key(*panel)),
        found(*refresh_status, panel_key(*panel)),
        now,
    ));
    let marker = focus_marker(focused, panel.plugin_id.as_str(), panel.id.as_str());
    PluginPanelSection {
        title: cat6(
            marker,
            panel.title.as_str(),
            " · ",
            panel.plugin_id.as_str(),
            ":",
            panel.id.as_str(),
        ),
        rows,
    }
}

/// The panels of one part of the screen.
pub open spec fn panels_in(panels: Seq<UiPanelDescriptor>, scope: UiMutationScope) -> Seq<UiPanelDescriptor>
    decreases panels.len(),
{
    if panels.len() == 0 {
        panels
    } else if panels.last().scope == scope {
        panels_in(panels.drop_last(), scope).push(panels.last())
    } else {
        panels_in(panels.drop_last(), scope)
    }
}

/// The panels of one part of the screen, as they are shown, in listing order.
pub open spec fn shown_panels(
    panels: Seq<UiPanelDescriptor>,
    snapshots: UiPanelSnapshots,
    refresh_status: UiPanelRefreshStatuses,
    scope: UiMutationScope,
    focused: Option<FocusedUiItem>,
    now: Instant,
) -> Seq<(Seq<char>, Seq<Seq<char>>)> {
    sorted(panels_in(panels, scope), listing::<UiPanelDescriptor>()).map_values(
        |p: UiPanelDescriptor| shown_panel(p, snapshots, refresh_status, focused, now),
    )
}

/// The panels of one part of the screen, in listing order.
pub fn panel_sections_for_scope(
    panels: &[UiPanelDescriptor],
    snapshots: &UiPanelSnapshots,
    refresh_status: &UiPanelRefreshStatuses,
    scope: UiMutationScope,
    focused: &Option<FocusedUiItem>,
    now: Instant,
) -> (r: Vec<PluginPanelSection>)
    ensures
        section_models(r@) == shown_panels(panels@, *snapshots, *refresh_status, scope, *focused, now),
{
    let mut kept: Vec<&UiPanelDescriptor> = Vec::new();
    let mut i: usize = 0;
    assert(items_of(kept@) =~= panels_in(panels@.take(0), scope));
    while i < panels.len()
        invariant
            i <= panels@.len(),
            items_of(kept@) == panels_in(panels@.take(i as int), scope),
        decreases panels@.len() - i,
    {
        let ghost before = kept@;
        assert(panels@.take(i + 1).drop_last() =~= panels@.take(i as int));
        if panels[i].scope == scope {
            kept.push(&panels[i]);
            assert(items_of(kept@) =~= items_of(before).push(panels@[i as int]));
        }
        i += 1;
    }
    assert(panels@.take(i as int) =~= panels@);
    let ordered = in_listing_order(kept);
    let ghost goal = shown_panels(panels@, *snapshots, *refresh_status, scope, *focused, now);
    let mut out: Vec<PluginPanelSection> = Vec::new();
    let mut k: usize = 0;
    assert(section_models(out@) =~= goal.take(0));
    while k < ordered.len()
        invariant
            k <= ordered@.len(),
            goal == items_of(ordered@).map_values(
                |p: UiPanelDescriptor| shown_panel(p, *snapshots, *refresh_status, *focused, now),
            ),
            section_models(out@) == goal.take(k as int),
        decreases ordered@.len() - k,
    {
        let ghost before = out@;
        let section = panel_section(ordered[k], snapshots, refresh_status, focused, now);
        assert(section_model(section) == goal[k as int]);
        out.push(section);
        assert(section_models(out@) =~= section_models(before).push(section_model(section)));
        assert(goal.take(k + 1) =~= goal.take(k as int).push(goal[k as int]));
        k += 1;
    }
    assert(goal.take(k as int) =~= goal);
    out
}

/// The panels of the info sidebar, in listing order.
pub fn info_sidebar_panel_sections(
    panels: &[UiPanelDescriptor],
    snapshots: &UiPanelSnapshots,
    refresh_status: &UiPanelRefreshStatuses,
    focused: &Option<FocusedUiItem>,
    now: Instant,
) -> (r: Vec<PluginPanelSection>)
    ensures
        section_models(r@) == shown_panels(
            panels@,
            *snapshots,
            *refresh_status,
            UiMutationScope::InfoSidebar,
            *focused,
            now,
        ),
{
    panel_sections_for_scope(panels, snapshots, refresh_status, UiMutationScope::InfoSidebar, focused, now)
}

// ── widgets ─────────────────────────────────────────────────────────────

pub open spec fn widget_kind_words(kind: UiWidgetKind) -> Seq<char> {
    match kind {
        UiWidgetKind::Text => "text"@,
        UiWidgetKind::Action => "action"@,
    }
}

fn ui_widget_kind_label(kind: UiWidgetKind) -> (r: &'static str)
    ensures
        r@ == widget_kind_words(kind),
{
    match kind {
        UiWidgetKind::Text => "text",
        UiWidgetKind::Action => "action",
    }
}

/// The key of a widget.
pub open spec fn widget_key(widget: UiWidgetDescriptor) -> Seq<char> {
    snapshot_key(widget.plugin_id@, widget.scope, widget.id@)
}

/// What a widget shows: its body, else its action, else its kind.
pub open spec fn widget_payload(widget: UiWidgetDescriptor, snapshot: Option<UiSnapshot>) -> Seq<char> {
    match shown_body(snapshot, widget.body) {
        Some(body) => body,
        None => match widget.runtime_action_id {
            Some(id) => "action "@ + id@,
            None => widget_kind_words(widget.kind),
        },
    }
}

/// The parts of a widget's row.
pub open spec fn widget_parts(
    widget: UiWidgetDescriptor,
    snapshot: Option<UiSnapshot>,
    status: Option<RefreshStatus>,
    now: Instant,
) -> Seq<Seq<char>> {
    seq![widget.label@, widget_payload(widget, snapshot)] + refresh_row(widget.refresh, status, now) + seq![
        widget.plugin_id@ + ":"@ + widget.id@,
    ]
}

/// A widget's row.
pub open spec fn widget_row(
    widget: UiWidgetDescriptor,
    snapshots: UiWidgetSnapshots,
    refresh_status: UiWidgetRefreshStatuses,
    focused: Option<FocusedUiItem>,
    now: Instant,
) -> Seq<char> {
    focus_mark(focused, widget.plugin_id@, widget.id@) + joined(
        widget_parts(
            widget,
            found(snapshots, widget_key(widget)),
            found(refresh_status, widget_key(widget)),
            now,
        ),
        " · "@,
    )
}

fn ui_widget_row(
    widget: &UiWidgetDescriptor,
    snapshots: &UiWidgetSnapshots,
    refresh_status: &UiWidgetRefreshStatuses,
    focused: &Option<FocusedUiItem>,
    now: Instant,
) -> (r: String)
    ensures
        r@ == widget_row(*widget, *snapshots, *refresh_status, *focused, now),
{
    let key = ui_snapshot_key(widget.plugin_id.as_str(), widget.scope, widget.id.as_str());
    let payload = match body_of(snapshots.get(key.as_str()), &widget.body) {
        Some(body) => body,
        None => match &widget.runtime_action_id {
            Some(id) => cat2("action ", id.as_str()),
            None => ui_widget_kind_label(widget.kind).to_owned(),
        },
    };
    let mut parts: Vec<String> = Vec::new();
    parts.push(widget.label.clone());
    parts.push(payload);
    if widget.refresh.is_some() {
        parts.push(refresh_label(refresh_status.get(key.as_str()), now));
    }
    parts.push(cat3(widget.plugin_id.as_str(), ":", widget.id.as_str()));
    assert(texts(parts@) =~= widget_parts(
        *widget,
        found(*snapshots, widget_key(*widget)),
        found(*refresh_status, widget_key(*widget)),
        now,
    ));
    let marker = focus_marker(focused, widget.plugin_id.as_str(), widget.id.as_str());
    cat2(marker, join(&parts, " · ").as_str())
}

/// The widgets of one part of the screen.
pub open spec fn widgets_in(widgets: Seq<UiWidgetDescriptor>, scope: UiMutationScope) -> Seq<UiWidgetDescriptor>
    decreases widgets.len(),
{
    if widgets.len() == 0 {
        widgets
    } else if widgets.last().scope == scope {
        widgets_in(widgets.drop_last(), scope).push(widgets.last())
    } else {
        widgets_in(widgets.drop_last(), scope)
    }
}

/// The rows of the widgets of one part of the screen, in listing order.
pub open spec fn widget_rows(
    widgets: Seq<UiWidgetDescriptor>,
    snapshots: UiWidgetSnapshots,
    refresh_status: UiWidgetRefreshStatuses,
    scope: UiMutationScope,
    focused: Option<FocusedUiItem>,
    now: Instant,
) -> Seq<Seq<char>> {
    sorted(widgets_in(widgets, scope), listing::<UiWidgetDescriptor>()).map_values(
        |w: UiWidgetDescriptor| widget_row(w, snapshots, refresh_status, focused, now),
    )
}

/// The rows of the widgets of one part of the screen, in listing order.
pub fn ui_widget_rows_for_scope(
    widgets: &[UiWidgetDescriptor],
    snapshots: &UiWidgetSnapshots,
    refresh_status: &UiWidgetRefreshStatuses,
    scope: UiMutationScope,
    focused: &Option<FocusedUiItem>,
    now: Instant,
) -> (r: Vec<String>)
    ensures
        texts(r@) == widget_rows(widgets@, *snapshots, *refresh_status, scope, *focused, now),
{
    let mut kept: Vec<&UiWidgetDescriptor> = Vec::new();
    let mut i: usize = 0;
    assert(items_of(kept@) =~= widgets_in(widgets@.take(0), scope));
    while i < widgets.len()
        invariant
            i <= widgets@.len(),
            items_of(kept@) == widgets_in(widgets@.take(i as int), scope),
        decreases widgets@.len() - i,
    {
        let ghost before = kept@;
        assert(widgets@.take(i + 1).drop_last() =~= widgets@.take(i as int));
        if widgets[i].scope == scope {
            kept.push(&widgets[i]);
            assert(items_of(kept@) =~= items_of(before).push(widgets@[i as int]));
        }
        i += 1;
    }
    assert(widgets@.take(i as int) =~= widgets@);
    let ordered = in_listing_order(kept);
    let ghost goal = widget_rows(widgets@, *snapshots, *refresh_status, scope, *focused, now);
    let mut out: Vec<String> = Vec::new();
    let mut k: usize = 0;
    assert(texts(out@) =~= goal.take(0));
    while k < ordered.len()
        invariant
            k <= ordered@.len(),
            goal == items_of(ordered@).map_values(
                |w: UiWidgetDescriptor| widget_row(w, *snapshots, *refresh_status, *focused, now),
            ),
            texts(out@) == goal.take(k as int),
        decreases ordered@.len() - k,
    {
        let row = ui_widget_row(ordered[k], snapshots, refresh_status, focused, now);
        assert(row@ == goal[k as int]);
        out.push(row);
        assert(goal.take(k + 1) =~= goal.take(k as int).push(goal[k as int]));
        k += 1;
    }
    assert(goal.take(k as int) =~= goal);
    out
}

/// The widget rows of the info sidebar.
pub fn ui_widget_panel_rows(
    widgets: &[UiWidgetDescriptor],
    snapshots: &UiWidgetSnapshots,
    refresh_status: &UiWidgetRefreshStatuses,
    focused: &Option<FocusedUiItem>,
    now: Instant,
) -> (r: Vec<String>)
    ensures
        texts(r@) == widget_rows(
            widgets@,
            *snapshots,
            *refresh_status,
            UiMutationScope::InfoSidebar,
            *focused,
            now,
        ),
{
    ui_widget_rows_for_scope(widgets, snapshots, refresh_status, UiMutationScope::InfoSidebar, focused, now)
}

/// The widget rows of the task panel.
pub fn task_panel_widget_rows(
    widgets: &[UiWidgetDescriptor],
    snapshots: &UiWidgetSnapshots,
    refresh_status: &UiWidgetRefreshStatuses,
    now: Instant,
) -> (r: Vec<String>)
    ensures
        texts(r@) == widget_rows(widgets@, *snapshots, *refresh_status, UiMutationScope::TaskPanel, None, now),
{
    ui_widget_rows_for_scope(widgets, snapshots, refresh_status, UiMutationScope::TaskPanel, &None, now)
}

/// The widget rows of the session sidebar.
pub fn session_sidebar_widget_rows(
    widgets: &[UiWidgetDescriptor],
    snapshots: &UiWidgetSnapshots,
    refresh_status: &UiWidgetRefreshStatuses,
    now: Instant,
) -> (r: Vec<String>)
    ensures
        texts(r@) == widget_rows(widgets@, *snapshots, *refresh_status, UiMutationScope::SessionSidebar, None, now),
{
    ui_widget_rows_for_scope(widgets, snapshots, refresh_status, UiMutationScope::SessionSidebar, &None, now)
}

/// A compacted message is one line of at most eighty characters.
pub proof fn law_compacted_is_one_short_line(value: Seq<char>)
    ensures
        compacted(value).len() <= 80,
        forall|i: int|
            0 <= i < compacted(value).len() ==> (#[trigger] compacted(value)[i]) != '\n' && compacted(value)[i]
                != '\r',
{
    reveal_strlit("...");
}

proof fn lemma_split_at_nul(a: Seq<char>, b: Seq<char>, c: Seq<char>, d: Seq<char>)
    requires
        !a.contains('\0'),
        !c.contains('\0'),
        a + seq!['\0'] + b == c + seq!['\0'] + d,
    ensures
        a == c,
        b == d,
{
    let s = a + seq!['\0'] + b;
    let t = c + seq!['\0'] + d;
    assert(s[a.len() as int] == '\0');
    assert(t[c.len() as int] == '\0');
    if a.len() < c.len() {
        assert(t[a.len() as int] == c[a.len() as int]);
        assert(c.contains(c[a.len() as int]));
    }
    if c.len() < a.len() {
        assert(s[c.len() as int] == a[c.len() as int]);
        assert(a.contains(a[c.len() as int]));
    }
    assert(a =~= s.take(a.len() as int));
    assert(c =~= t.take(c.len() as int));
    assert(b =~= s.skip(a.len() + 1int));
    assert(d =~= t.skip(c.len() + 1int));
}

/// The snapshots of two items never get into each other's way, whatever the items are
/// called and wherever they stand.
pub proof fn law_snapshots_are_kept_apart(
    plugin: Seq<char>,
    scope: UiMutationScope,
    id: Seq<char>,
    other_plugin: Seq<char>,
    other_scope: UiMutationScope,
    other_id: Seq<char>,
)
    requires
        !plugin.contains('\0'),
        !other_plugin.contains('\0'),
        snapshot_key(plugin, scope, id) == snapshot_key(other_plugin, other_scope, other_id),
    ensures
        plugin == other_plugin,
        scope == other_scope,
        id == other_id,
{
    reveal_strlit("\0");
    reveal_strlit("task_panel");
    reveal_strlit("info_sidebar");
    reveal_strlit("session_sidebar");
    assert("\0"@ =~= seq!['\0']);
    let nul = seq!['\0'];
    let a = scope.name() + nul + id;
    let b = other_scope.name() + nul + other_id;
    assert(snapshot_key(plugin, scope, id) =~= plugin + nul + a);
    assert(snapshot_key(other_plugin, other_scope, other_id) =~= other_plugin + nul + b);
    lemma_split_at_nul(plugin, a, other_plugin, b);
    assert(!scope.name().contains('\0'));
    assert(!other_scope.name().contains('\0'));
    lemma_split_at_nul(scope.name(), id, other_scope.name(), other_id);
    assert("task_panel"@[0] == 't' && "info_sidebar"@[0] == 'i' && "session_sidebar"@[0] == 's');
}

proof fn lemma_panels_in(panels: Seq<UiPanelDescriptor>, scope: UiMutationScope, k: int)
    requires
        0 <= k < panels.len(),
        panels[k].scope == scope,
    ensures
        panels_in(panels, scope).contains(panels[k]),
    decreases panels.len(),
{
    let front = panels.drop_last();
    let before = panels_in(front, scope);
    if k < front.len() {
        lemma_panels_in(front, scope, k);
        let i = choose|i: int| 0 <= i < before.len() && before[i] == panels[k];
        assert(panels_in(panels, scope)[i] == panels[k]);
    } else {
        assert(panels_in(panels, scope)[before.len() as int] == panels[k]);
    }
}

/// Every panel that is announced for a place is shown there.
pub proof fn law_every_panel_is_shown(
    panels: Seq<UiPanelDescriptor>,
    snapshots: UiPanelSnapshots,
    refresh_status: UiPanelRefreshStatuses,
    focused: Option<FocusedUiItem>,
    now: Instant,
    k: int,
)
    requires
        0 <= k < panels.len(),
    ensures
        shown_panels(panels, snapshots, refresh_status, panels[k].scope, focused, now).contains(
            shown_panel(panels[k], snapshots, refresh_status, focused, now),
        ),
{
    let scope = panels[k].scope;
    lemma_panels_in(panels, scope, k);
    let some = panels_in(panels, scope);
    let order = sorted(some, listing::<UiPanelDescriptor>());
    crate::order::law_sorted_is_a_permutation(some, listing::<UiPanelDescriptor>());
    vstd::seq_lib::to_multiset_contains(some, panels[k]);
    vstd::seq_lib::to_multiset_contains(order, panels[k]);
    let i = choose|i: int| 0 <= i < order.len() && order[i] == panels[k];
    let all = shown_panels(panels, snapshots, refresh_status, scope, focused, now);
    assert(all[i] == shown_panel(panels[k], snapshots, refresh_status, focused, now));
}

proof fn lemma_widgets_in(widgets: Seq<UiWidgetDescriptor>, scope: UiMutationScope, k: int)
    requires
        0 <= k < widgets.len(),
        widgets[k].scope == scope,
    ensures
        widgets_in(widgets, scope).contains(widgets[k]),
    decreases widgets.len(),
{
    let front = widgets.drop_last();
    let before = widgets_in(front, scope);
    if k < front.len() {
        lemma_widgets_in(front, scope, k);
        let i = choose|i: int| 0 <= i < before.len() && before[i] == widgets[k];
        assert(widgets_in(widgets, scope)[i] == widgets[k]);
    } else {
        assert(widgets_in(widgets, scope)[before.len() as int] == widgets[k]);
    }
}

/// Every widget that is announced for a place has its row there, with its label and what
/// it has to say.
pub proof fn law_every_widget_has_its_row(
    widgets: Seq<UiWidgetDescriptor>,
    snapshots: UiWidgetSnapshots,
    refresh_status: UiWidgetRefreshStatuses,
    focused: Option<FocusedUiItem>,
    now: Instant,
    k: int,
)
    requires
        0 <= k < widgets.len(),
    ensures
        ({
            let w = widgets[k];
            let row = widget_row(w, snapshots, refresh_status, focused, now);
            &&& widget_rows(widgets, snapshots, refresh_status, w.scope, focused, now).contains(row)
            &&& has_text(row, w.label@)
            &&& has_text(row, widget_payload(w, found(snapshots, widget_key(w))))
        }),
{
    let w = widgets[k];
    lemma_widgets_in(widgets, w.scope, k);
    let some = widgets_in(widgets, w.scope);
    let order = sorted(some, listing::<UiWidgetDescriptor>());
    crate::order::law_sorted_is_a_permutation(some, listing::<UiWidgetDescriptor>());
    vstd::seq_lib::to_multiset_contains(some, w);
    vstd::seq_lib::to_multiset_contains(order, w);
    let i = choose|i: int| 0 <= i < order.len() && order[i] == w;
    let row = widget_row(w, snapshots, refresh_status, focused, now);
    assert(widget_rows(widgets, snapshots, refresh_status, w.scope, focused, now)[i] == row);
    let parts = widget_parts(w, found(snapshots, widget_key(w)), found(refresh_status, widget_key(w)), now);
    let mark = focus_mark(focused, w.plugin_id@, w.id@);
    assert(parts[0] == w.label@);
    assert(parts[1] == widget_payload(w, found(snapshots, widget_key(w))));
    lemma_joined_has(parts, " · "@, 0);
    lemma_joined_has(parts, " · "@, 1);
    lemma_has_in_sum(mark, joined(parts, " · "@), parts[0]);
    lemma_has_in_sum(mark, joined(parts, " · "@), parts[1]);
}

/// What was received last is shown, whatever was announced; what was announced is shown
/// until then.
pub proof fn law_received_body_is_shown(snapshot: UiSnapshot, announced: Option<String>)
    ensures
        snapshot.body is Some ==> shown_body(Some(snapshot), announced) == Some(snapshot.body->0@),
        snapshot.body is None ==> shown_body(Some(snapshot), announced) == shown_body(None, announced),
        announced is Some ==> shown_body(None, announced) == Some(announced->0@),
{
}

/// What happened last is told of a refresh: that it was skipped and why, that it failed
/// and why, or when it succeeded.
pub proof fn law_refresh_tells_what_happened(s: RefreshStatus, now: Instant)
    ensures
        s.last_skip_reason is Some ==> has_suffix(refresh_words(Some(s), now), compacted(s.last_skip_reason->0@)),
        s.last_skip_reason is None && s.last_error is Some ==> has_suffix(
            refresh_words(Some(s), now),
            compacted(s.last_error->0@),
        ),
        s.last_skip_reason is None && s.last_error is None && s.last_success_at is Some ==> refresh_words(Some(s), now)
            == "refresh ok "@ + ago(now.since(s.last_success_at->0) / 1_000_000_000),
{
    if s.last_skip_reason is Some {
        let w = compacted(s.last_skip_reason->0@);
        let all = "refresh skipped "@ + w;
        assert(all.subrange(all.len() - w.len(), all.len() as int) =~= w);
    } else if s.last_error is Some {
        let w = compacted(s.last_error->0@);
        let all = "refresh error "@ + w;
        assert(all.subrange(all.len() - w.len(), all.len() as int) =~= w);
    }
}

/// Times are told in seconds below a minute, in minutes below an hour, and in hours.
pub proof fn law_ages_are_told_in_their_unit(n: nat)
    ensures
        0 < n < 60 ==> ago(n) == decimal(n) + "s ago"@,
        60 <= n < 3600 ==> ago(n) == decimal(n / 60) + "m ago"@,
        n >= 3600 ==> ago(n) == decimal(n / 3600) + "h ago"@,
        ago(0) == "just now"@,
{
    assert(n / 60 / 60 == n / 3600);
}

} // verus!
