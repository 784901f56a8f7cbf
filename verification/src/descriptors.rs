//! What plugins announce about themselves, and the order in which it is listed.
use vstd::prelude::*;

use crate::order::{lemma_sorted_map, rank_order, sort_stable, sorted, text_before, text_is_before, Ranked};
use crate::text::same_text;
use crate::text_map::TextMap;
use crate::time::Instant;

verus! {

/// A place in the user interface that plugins can extend.
#[derive(Debug, Clone, Copy, PartialEq, Eq, Structural)]
pub enum ExtensionSlot {
    StatusLine,
    Sidebar,
    CommandPalette,
}

/// An extension of one slot.
#[derive(Debug, Clone)]
pub struct UiSlotDescriptor {
    pub slot: ExtensionSlot,
    pub id: String,
}

/// Where a metric is shown.
#[derive(Debug, Clone, Copy, PartialEq, Eq, Structural)]
pub enum MetricSurface {
    StatusLine,
    Sidebar,
    Panel,
}

/// What a metric counts.
#[derive(Debug, Clone, Copy, PartialEq, Eq, Structural)]
pub enum MetricUnit {
    Count,
    Percent,
    Tokens,
    Usd,
    Digest,
    Text,
}

/// A metric that a plugin reports.
#[derive(Debug, Clone)]
pub struct MetricDescriptor {
    pub plugin_id: String,
    pub id: String,
    pub label: String,
    pub unit: MetricUnit,
    pub surfaces: Vec<MetricSurface>,
    pub priority: i32,
}

/// What a runtime action does.
#[derive(Debug, Clone, Copy, PartialEq, Eq, Structural)]
pub enum RuntimeActionKind {
    PluginDiagnostics,
    PluginSmoke,
    Custom,
}

/// An action that a plugin offers.
#[derive(Debug, Clone)]
pub struct RuntimeActionDescriptor {
    pub plugin_id: String,
    pub id: String,
    pub label: String,
    pub kind: RuntimeActionKind,
}

/// The part of the screen that a panel or a widget belongs to.
#[derive(Debug, Clone, Copy, PartialEq, Eq, Structural)]
pub enum UiMutationScope {
    TaskPanel,
    InfoSidebar,
    SessionSidebar,
}

impl UiMutationScope {
    pub open spec fn name(self) -> Seq<char> {
        match self {
            UiMutationScope::TaskPanel => "task_panel"@,
            UiMutationScope::InfoSidebar => "info_sidebar"@,
            UiMutationScope::SessionSidebar => "session_sidebar"@,
        }
    }

    pub fn label(self) -> (r: &'static str)
        ensures
            r@ == self.name(),
    {
        match self {
            UiMutationScope::TaskPanel => "task_panel",
            UiMutationScope::InfoSidebar => "info_sidebar",
            UiMutationScope::SessionSidebar => "session_sidebar",
        }
    }
}

/// A panel of a plugin.
#[derive(Debug, Clone)]
pub struct UiPanelDescriptor {
    pub plugin_id: String,
    pub scope: UiMutationScope,
    pub id: String,
    pub title: String,
    pub body: Option<String>,
    pub runtime_action_id: Option<String>,
    /// The command that refreshes the panel, if any.
    pub refresh: Option<String>,
    pub priority: i32,
}

#[derive(Debug, Clone, Copy, PartialEq, Eq, Structural)]
pub enum UiWidgetKind {
    Text,
    Action,
}

/// A widget of a plugin.
#[derive(Debug, Clone)]
pub struct UiWidgetDescriptor {
    pub plugin_id: String,
    pub scope: UiMutationScope,
    pub id: String,
    pub label: String,
    pub kind: UiWidgetKind,
    pub body: Option<String>,
    pub runtime_action_id: Option<String>,
    /// The command that refreshes the widget, if any.
    pub refresh: Option<String>,
    pub priority: i32,
}

/// What the host last heard of a panel or a widget.
#[derive(Debug, Clone)]
pub struct UiSnapshot {
    pub body: Option<String>,
    pub state: Option<String>,
}

pub type UiPanelSnapshots = TextMap<UiSnapshot>;

pub type UiWidgetSnapshots = TextMap<UiSnapshot>;

/// How the refreshes of a panel or a widget went.
#[derive(Debug, Clone)]
pub struct RefreshStatus {
    pub last_attempt_at: Option<Instant>,
    pub last_success_at: Option<Instant>,
    pub last_error: Option<String>,
    pub last_skip_reason: Option<String>,
}

impl Default for RefreshStatus {
    fn default() -> (r: Self)
        ensures
            r == (RefreshStatus {
                last_attempt_at: None,
                last_success_at: None,
                last_error: None,
                last_skip_reason: None,
            }),
    {
        RefreshStatus {
            last_attempt_at: None,
            last_success_at: None,
            last_error: None,
            last_skip_reason: None,
        }
    }
}

pub type UiPanelRefreshStatuses = TextMap<RefreshStatus>;

pub type UiWidgetRefreshStatuses = TextMap<RefreshStatus>;

// ── listing order ───────────────────────────────────────────────────────

/// Something that plugins announce and that is listed by priority.
pub trait Announced: Sized {
    spec fn weight(&self) -> int;

    spec fn owner(&self) -> Seq<char>;

    spec fn name(&self) -> Seq<char>;

    fn priority(&self) -> (r: i32)
        ensures
            r == self.weight(),
    ;

    fn plugin_id(&self) -> (r: &str)
        ensures
            r@ == self.owner(),
    ;

    fn id(&self) -> (r: &str)
        ensures
            r@ == self.name(),
    ;
}

/// Higher priorities come first, then the plugins by name, then their items by
/// name.
pub open spec fn listed_before<T: Announced>(a: T, b: T) -> bool {
    if a.weight() != b.weight() {
        a.weight() > b.weight()
    } else if a.owner() != b.owner() {
        text_before(a.owner(), b.owner())
    } else {
        text_before(a.name(), b.name())
    }
}

/// The listing order.
pub open spec fn listing<T: Announced>() -> spec_fn(T, T) -> bool {
    |a: T, b: T| listed_before(a, b)
}

/// The items that the references point to.
pub open spec fn items_of<T>(v: Seq<&T>) -> Seq<T> {
    v.map_values(|r: &T| *r)
}

/// An item that is put into its listing order.
pub struct Listed<'a, T> {
    pub item: &'a T,
}

impl<'a, T: Announced> Ranked for Listed<'a, T> {
    open spec fn before(&self, other: &Self) -> bool {
        listed_before(*self.item, *other.item)
    }

    fn is_before(&self, other: &Self) -> (r: bool) {
        let (a, b) = (self.item.priority(), other.item.priority());
        if a != b {
            a > b
        } else if !same_text(self.item.plugin_id(), other.item.plugin_id()) {
            text_is_before(self.item.plugin_id(), other.item.plugin_id())
        } else {
            text_is_before(self.item.id(), other.item.id())
        }
    }
}

/// Put items into their listing order.
pub fn in_listing_order<'a, T: Announced>(items: Vec<&'a T>) -> (r: Vec<&'a T>)
    ensures
        items_of(r@) == sorted(items_of(items@), listing::<T>()),
{
    let ghost shown = |l: Listed<'a, T>| *l.item;
    let mut wrapped: Vec<Listed<'a, T>> = Vec::new();
    let mut i: usize = 0;
    assert(wrapped@.map_values(shown) =~= items_of(items@).take(0));
    while i < items.len()
        invariant
            i <= items@.len(),
            shown == (|l: Listed<'a, T>| *l.item),
            wrapped@.map_values(shown) == items_of(items@).take(i as int),
        decreases items@.len() - i,
    {
        let ghost before = wrapped@;
        wrapped.push(Listed { item: items[i] });
        assert(wrapped@.map_values(shown) =~= before.map_values(shown).push(*items@[i as int]));
        assert(items_of(items@).take(i + 1) =~= items_of(items@).take(i as int).push(*items@[i as int]));
        i += 1;
    }
    assert(items_of(items@).take(i as int) =~= items_of(items@));
    proof {
        lemma_sorted_map(wrapped@, shown, rank_order::<Listed<'a, T>>(), listing::<T>());
    }
    let ordered = sort_stable(wrapped);
    let mut out: Vec<&'a T> = Vec::new();
    let mut k: usize = 0;
    assert(items_of(out@) =~= ordered@.map_values(shown).take(0));
    while k < ordered.len()
        invariant
            k <= ordered@.len(),
            shown == (|l: Listed<'a, T>| *l.item),
            items_of(out@) == ordered@.map_values(shown).take(k as int),
        decreases ordered@.len() - k,
    {
        let ghost before = out@;
        out.push(ordered[k].item);
        assert(items_of(out@) =~= items_of(before).push(*ordered@[k as int].item));
        assert(ordered@.map_values(shown).take(k + 1) =~= ordered@.map_values(shown).take(k as int).push(
            *ordered@[k as int].item,
        ));
        k += 1;
    }
    assert(ordered@.map_values(shown).take(k as int) =~= ordered@.map_values(shown));
    out
}

impl Announced for MetricDescriptor {
    open spec fn weight(&self) -> int {
        self.priority as int
    }

    open spec fn owner(&self) -> Seq<char> {
        self.plugin_id@
    }

    open spec fn name(&self) -> Seq<char> {
        self.id@
    }

    fn priority(&self) -> (r: i32) {
        self.priority
    }

    fn plugin_id(&self) -> (r: &str) {
        self.plugin_id.as_str()
    }

    fn id(&self) -> (r: &str) {
        self.id.as_str()
    }
}

impl Announced for UiPanelDescriptor {
    open spec fn weight(&self) -> int {
        self.priority as int
    }

    open spec fn owner(&self) -> Seq<char> {
        self.plugin_id@
    }

    open spec fn name(&self) -> Seq<char> {
        self.id@
    }

    fn priority(&self) -> (r: i32) {
        self.priority
    }

    fn plugin_id(&self) -> (r: &str) {
        self.plugin_id.as_str()
    }

    fn id(&self) -> (r: &str) {
        self.id.as_str()
    }
}

impl Announced for UiWidgetDescriptor {
    open spec fn weight(&self) -> int {
        self.priority as int
    }

    open spec fn owner(&self) -> Seq<char> {
        self.plugin_id@
    }

    open spec fn name(&self) -> Seq<char> {
        self.id@
    }

    fn priority(&self) -> (r: i32) {
        self.priority
    }

    fn plugin_id(&self) -> (r: &str) {
        self.plugin_id.as_str()
    }

    fn id(&self) -> (r: &str) {
        self.id.as_str()
    }
}

/// The listing order is a weak order, so listings are sorted by it.
pub proof fn law_listing_is_a_weak_order<T: Announced>()
    ensures
        crate::order::is_weak_order(listing::<T>()),
{
    let before = listing::<T>();
    assert forall|a: T, b: T| #[trigger] before(a, b) implies !before(b, a) by {
        crate::order::law_text_order(a.owner(), b.owner(), a.owner());
        crate::order::law_text_order(a.name(), b.name(), a.name());
    }
    assert forall|a: T, b: T, c: T|
        #![trigger before(a, b), before(b, c)]
        !before(a, b) && !before(b, c) implies !before(a, c) by {
        crate::order::law_text_order(a.owner(), b.owner(), c.owner());
        crate::order::law_text_order(b.owner(), c.owner(), a.owner());
        crate::order::law_text_order(c.owner(), a.owner(), b.owner());
        crate::order::law_text_order(a.owner(), c.owner(), b.owner());
        crate::order::law_text_order(c.owner(), b.owner(), a.owner());
        crate::order::law_text_order(a.name(), b.name(), c.name());
        crate::order::law_text_order(b.name(), c.name(), a.name());
        crate::order::law_text_order(c.name(), a.name(), b.name());
        crate::order::law_text_order(a.name(), c.name(), b.name());
        crate::order::law_text_order(c.name(), b.name(), a.name());
    }
}

} // verus!
