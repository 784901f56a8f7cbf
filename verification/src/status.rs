//! The status line under the input.
//!
//! It is a list of segments. Each has a priority, and a line that is too narrow
//! loses its least important segments first.
use vstd::prelude::*;

use crate::bytes_len::{cut_at_bytes, cut_bytes, longer_than_bytes, utf8_size};
use crate::fitting::{cell_width, shortened, text_columns, truncate_str};
use crate::sidebar::{DiffStats, McpServer, McpStatus};
use crate::showing::{lemma_has_in_sum, lemma_has_itself, lemma_joined_has, lemma_row_has, lemma_row_text_adds, row_text};
use crate::slicing::{contains, group_texts, has_text, join, joined, opt_text, texts};
use crate::styled::{group_rows, span, spans_of, Line, Span, Style, Tone};
use crate::text::{
    cat2, cat3, cat4, count_text, decimal, decimal_text, lowercase, push_decimal, same_text, to_lowercase,
};

verus! {

broadcast use {group_texts, group_rows};

// ── which segments fit ──────────────────────────────────────────────────

/// Segments of this priority and above are alerts, which go last.
pub const STATUS_FLOOR_PRIO: u8 = 90;

/// The width of the segments that are kept.
pub open spec fn kept_width(widths: Seq<usize>, keep: Seq<bool>) -> nat
    decreases keep.len(),
{
    if keep.len() == 0 {
        0
    } else {
        kept_width(widths, keep.drop_last()) + (if keep.last() {
            widths[keep.len() - 1] as nat
        } else {
            0
        })
    }
}

/// How many segments are kept.
pub open spec fn kept_count(keep: Seq<bool>) -> nat
    decreases keep.len(),
{
    if keep.len() == 0 {
        0
    } else {
        kept_count(keep.drop_last()) + (if keep.last() {
            1nat
        } else {
            0
        })
    }
}

/// The first segment of the lowest priority among the first `n` that are kept,
/// or among those of them below the floor.
pub open spec fn lowest(prios: Seq<u8>, keep: Seq<bool>, below_floor: bool, n: nat) -> Option<int>
    decreases n,
{
    if n == 0 {
        None
    } else {
        let i = n - 1;
        let before = lowest(prios, keep, below_floor, (n - 1) as nat);
        if keep[i] && (!below_floor || prios[i] < STATUS_FLOOR_PRIO) {
            match before {
                None => Some(i),
                Some(j) => if prios[i] < prios[j] {
                    Some(i)
                } else {
                    Some(j)
                },
            }
        } else {
            before
        }
    }
}

/// The segment that goes next.
pub open spec fn next_to_go(prios: Seq<u8>, keep: Seq<bool>) -> Option<int> {
    match lowest(prios, keep, true, prios.len()) {
        Some(i) => Some(i),
        None => lowest(prios, keep, false, prios.len()),
    }
}

proof fn lemma_lowest(prios: Seq<u8>, keep: Seq<bool>, below_floor: bool, n: nat)
    requires
        n <= prios.len() == keep.len(),
    ensures
        match lowest(prios, keep, below_floor, n) {
            Some(i) => {
                &&& 0 <= i < n
                &&& keep[i]
                &&& below_floor ==> prios[i] < STATUS_FLOOR_PRIO
                &&& forall|j: int|
                    0 <= j < n && #[trigger] keep[j] && (!below_floor || prios[j] < STATUS_FLOOR_PRIO)
                        ==> prios[i] < prios[j] || (prios[i] == prios[j] && i <= j)
            },
            None => forall|j: int|
                0 <= j < n && #[trigger] keep[j] ==> below_floor && prios[j] >= STATUS_FLOOR_PRIO,
        },
    decreases n,
{
    if n > 0 {
        lemma_lowest(prios, keep, below_floor, (n - 1) as nat);
    }
}

proof fn lemma_kept_count_drops(keep: Seq<bool>, i: int)
    requires
        0 <= i < keep.len(),
        keep[i],
    ensures
        kept_count(keep.update(i, false)) + 1 == kept_count(keep),
    decreases keep.len(),
{
    let after = keep.update(i, false);
    if i == keep.len() - 1 {
        assert(after.drop_last() =~= keep.drop_last());
    } else {
        assert(after.drop_last() =~= keep.drop_last().update(i, false));
        lemma_kept_count_drops(keep.drop_last(), i);
    }
}

/// The segments that are kept: the lowest goes until the rest fits.
pub open spec fn fitted(prios: Seq<u8>, widths: Seq<usize>, prefix_w: nat, avail: nat, keep: Seq<bool>) -> Seq<bool>
    decreases kept_count(keep),
{
    if prefix_w + kept_width(widths, keep) <= avail {
        keep
    } else {
        match next_to_go(prios, keep) {
            None => keep,
            Some(i) => if 0 <= i < keep.len() && kept_count(keep.update(i, false)) < kept_count(keep) {
                fitted(prios, widths, prefix_w, avail, keep.update(i, false))
            } else {
                keep
            },
        }
    }
}

/// The segments that stay of `n` segments.
pub open spec fn fitting_mask(prios: Seq<u8>, widths: Seq<usize>, prefix_w: nat, avail: nat) -> Seq<bool> {
    fitted(prios, widths, prefix_w, avail, Seq::new(prios.len(), |i: int| true))
}

fn width_of_kept(widths: &[usize], keep: &Vec<bool>) -> (r: u128)
    requires
        keep@.len() <= widths@.len(),
    ensures
        r == kept_width(widths@, keep@),
        r <= keep@.len() * usize::MAX,
{
    let mut total: u128 = 0;
    let mut i: usize = 0;
    assert(keep@.take(0) =~= Seq::<bool>::empty());
    while i < keep.len()
        invariant
            i <= keep@.len() <= widths@.len(),
            total == kept_width(widths@, keep@.take(i as int)),
            total <= i * usize::MAX,
        decreases keep@.len() - i,
    {
        assert(keep@.take(i + 1).drop_last() =~= keep@.take(i as int));
        assert((i + 1) * usize::MAX == i * usize::MAX + usize::MAX) by (nonlinear_arith);
        assert(i * usize::MAX <= 0xffff_ffff_ffff_ffff * 0xffff_ffff_ffff_ffff) by (nonlinear_arith)
            requires
                i <= 0xffff_ffff_ffff_ffff,
                usize::MAX <= 0xffff_ffff_ffff_ffff,
        ;
        if keep[i] {
            total = total + widths[i] as u128;
        }
        i += 1;
    }
    assert(keep@.take(i as int) =~= keep@);
    total
}

fn pick(prios: &[u8], keep: &Vec<bool>, below_floor: bool) -> (r: Option<usize>)
    requires
        prios@.len() == keep@.len(),
    ensures
        match lowest(prios@, keep@, below_floor, prios@.len()) {
            Some(i) => r matches Some(k) && k == i,
            None => r is None,
        },
{
    let mut found: Option<usize> = None;
    let mut i: usize = 0;
    while i < prios.len()
        invariant
            i <= prios@.len() == keep@.len(),
            match lowest(prios@, keep@, below_floor, i as nat) {
                Some(x) => found matches Some(k) && k == x && k < i,
                None => found is None,
            },
        decreases prios@.len() - i,
    {
        if keep[i] && (!below_floor || prios[i] < STATUS_FLOOR_PRIO) {
            match found {
                None => {
                    found = Some(i);
                },
                Some(j) => {
                    if prios[i] < prios[j] {
                        found = Some(i);
                    }
                },
            }
        }
        i += 1;
    }
    found
}

/// Decide which status segments stay in `avail` columns, of which `prefix_w` are
/// taken. While the rest does not fit, the segment of the lowest priority below
/// the floor goes, and only where there is none the lowest alert.
pub fn fit_segments(prios: &[u8], widths: &[usize], prefix_w: usize, avail: usize) -> (r: Vec<bool>)
    requires
        prios@.len() <= widths@.len(),
    ensures
        r@ == fitting_mask(prios@, widths@, prefix_w as nat, avail as nat),
        r@.len() == prios@.len(),
{
    let mut keep: Vec<bool> = Vec::new();
    let mut i: usize = 0;
    while i < prios.len()
        invariant
            i <= prios@.len(),
            keep@ == Seq::new(i as nat, |k: int| true),
        decreases prios@.len() - i,
    {
        keep.push(true);
        assert(keep@ =~= Seq::new((i + 1) as nat, |k: int| true));
        i += 1;
    }
    loop
        invariant
            keep@.len() == prios@.len() <= widths@.len(),
            fitted(prios@, widths@, prefix_w as nat, avail as nat, keep@) == fitting_mask(
                prios@,
                widths@,
                prefix_w as nat,
                avail as nat,
            ),
        ensures
            keep@.len() == prios@.len(),
            keep@ == fitting_mask(prios@, widths@, prefix_w as nat, avail as nat),
        decreases kept_count(keep@),
    {
        let used: u128 = width_of_kept(widths, &keep);
        let n: usize = keep.len();
        assert(n * usize::MAX <= 0xffff_ffff_ffff_ffff * 0xffff_ffff_ffff_ffff) by (nonlinear_arith)
            requires
                n <= 0xffff_ffff_ffff_ffff,
                usize::MAX <= 0xffff_ffff_ffff_ffff,
        ;
        if prefix_w as u128 + used <= avail as u128 {
            break;
        }
        let low = match pick(prios, &keep, true) {
            Some(k) => Some(k),
            None => pick(prios, &keep, false),
        };
        match low {
            None => {
                break;
            },
            Some(k) => {
                proof {
                    lemma_lowest(prios@, keep@, true, prios@.len());
                    lemma_lowest(prios@, keep@, false, prios@.len());
                    lemma_kept_count_drops(keep@, k as int);
                }
                keep.set(k, false);
            },
        }
    }
    keep
}

/// Every segment that goes is at most as important as every one that stays.
spec fn lowest_went(prios: Seq<u8>, keep: Seq<bool>) -> bool {
    forall|i: int, j: int|
        #![trigger keep[i], keep[j]]
        0 <= i < keep.len() && 0 <= j < keep.len() && !keep[i] && keep[j] ==> prios[i] <= prios[j]
}

proof fn lemma_fitted(prios: Seq<u8>, widths: Seq<usize>, prefix_w: nat, avail: nat, keep: Seq<bool>)
    requires
        prios.len() == keep.len(),
        lowest_went(prios, keep),
    ensures
        ({
            let r = fitted(prios, widths, prefix_w, avail, keep);
            &&& r.len() == prios.len()
            &&& lowest_went(prios, r)
            &&& prefix_w + kept_width(widths, r) <= avail || (forall|i: int| 0 <= i < r.len() ==> !#[trigger] r[i])
        }),
    decreases kept_count(keep),
{
    if prefix_w + kept_width(widths, keep) > avail {
        lemma_lowest(prios, keep, true, prios.len());
        lemma_lowest(prios, keep, false, prios.len());
        match next_to_go(prios, keep) {
            None => {},
            Some(i) => {
                lemma_kept_count_drops(keep, i);
                lemma_fitted(prios, widths, prefix_w, avail, keep.update(i, false));
            },
        }
    }
}

/// The segments that stay fit, unless none stays.
pub proof fn law_kept_segments_fit(prios: Seq<u8>, widths: Seq<usize>, prefix_w: nat, avail: nat)
    ensures
        ({
            let keep = fitting_mask(prios, widths, prefix_w, avail);
            &&& keep.len() == prios.len()
            &&& prefix_w + kept_width(widths, keep) <= avail || (forall|i: int|
                0 <= i < keep.len() ==> !#[trigger] keep[i])
        }),
{
    lemma_fitted(prios, widths, prefix_w, avail, Seq::new(prios.len(), |i: int| true));
}

/// A segment goes before every more important one; so no alert goes while
/// something below the floor stays.
pub proof fn law_lowest_segments_go_first(
    prios: Seq<u8>,
    widths: Seq<usize>,
    prefix_w: nat,
    avail: nat,
    gone: int,
    kept: int,
)
    requires
        0 <= gone < prios.len(),
        0 <= kept < prios.len(),
        !fitting_mask(prios, widths, prefix_w, avail)[gone],
        fitting_mask(prios, widths, prefix_w, avail)[kept],
    ensures
        prios[gone] <= prios[kept],
        prios[gone] >= STATUS_FLOOR_PRIO ==> prios[kept] >= STATUS_FLOOR_PRIO,
{
    lemma_fitted(prios, widths, prefix_w, avail, Seq::new(prios.len(), |i: int| true));
}

/// One segment goes before another: it is less important, or as important and
/// further to the left.
pub open spec fn goes_before(prios: Seq<u8>, a: int, b: int) -> bool {
    prios[a] < prios[b] || (prios[a] == prios[b] && a < b)
}

/// A segment and all that go later.
pub open spec fn from_on(prios: Seq<u8>, i: int) -> Seq<bool> {
    Seq::new(prios.len(), |j: int| !goes_before(prios, j, i))
}

/// The first segments to go have gone, and none of them had to stay.
spec fn gone_in_order(prios: Seq<u8>, widths: Seq<usize>, prefix_w: nat, avail: nat, keep: Seq<bool>) -> bool {
    &&& keep.len() == prios.len()
    &&& forall|a: int, b: int|
        #![trigger keep[a], keep[b]]
        0 <= a < keep.len() && 0 <= b < keep.len() && !keep[a] && goes_before(prios, b, a) ==> !keep[b]
    &&& forall|a: int|
        0 <= a < keep.len() && !#[trigger] keep[a] ==> prefix_w + kept_width(widths, from_on(prios, a)) > avail
}

proof fn lemma_kept_width_grows(widths: Seq<usize>, less: Seq<bool>, more: Seq<bool>)
    requires
        less.len() == more.len(),
        forall|i: int| 0 <= i < less.len() && #[trigger] less[i] ==> more[i],
    ensures
        kept_width(widths, less) <= kept_width(widths, more),
    decreases less.len(),
{
    if less.len() > 0 {
        assert forall|i: int| 0 <= i < less.drop_last().len() && #[trigger] less.drop_last()[i] implies more.drop_last()[i] by {
            assert(less[i]);
        }
        lemma_kept_width_grows(widths, less.drop_last(), more.drop_last());
        assert(less.last() == less[less.len() - 1] && more.last() == more[less.len() - 1]);
    }
}

proof fn lemma_gone_in_order(prios: Seq<u8>, widths: Seq<usize>, prefix_w: nat, avail: nat, keep: Seq<bool>)
    requires
        gone_in_order(prios, widths, prefix_w, avail, keep),
    ensures
        gone_in_order(prios, widths, prefix_w, avail, fitted(prios, widths, prefix_w, avail, keep)),
    decreases kept_count(keep),
{
    if prefix_w + kept_width(widths, keep) > avail {
        lemma_lowest(prios, keep, true, prios.len());
        lemma_lowest(prios, keep, false, prios.len());
        match next_to_go(prios, keep) {
            None => {},
            Some(i) => {
                lemma_kept_count_drops(keep, i);
                let after = keep.update(i, false);
                assert forall|j: int| 0 <= j < keep.len() implies keep[j] == from_on(prios, i)[j] by {
                    if keep[j] && j != i {
                        assert(!goes_before(prios, j, i));
                    }
                }
                assert(from_on(prios, i) =~= keep);
                assert forall|a: int, b: int|
                    #![trigger after[a], after[b]]
                    0 <= a < after.len() && 0 <= b < after.len() && !after[a] && goes_before(
                        prios,
                        b,
                        a,
                    ) implies !after[b] by {
                    if a == i {
                        assert(from_on(prios, i)[b] == keep[b]);
                    } else {
                        assert(!keep[a]);
                        assert(!keep[b]);
                    }
                }
                assert forall|a: int| 0 <= a < after.len() && !#[trigger] after[a] implies prefix_w + kept_width(
                    widths,
                    from_on(prios, a),
                ) > avail by {
                    if a != i {
                        assert(!keep[a]);
                    }
                }
                lemma_gone_in_order(prios, widths, prefix_w, avail, after);
            },
        }
    }
}

/// No segment goes needlessly: one stays exactly where it fits together with all
/// that go later than it.
pub proof fn law_segments_stay_where_they_fit(prios: Seq<u8>, widths: Seq<usize>, prefix_w: nat, avail: nat, i: int)
    requires
        0 <= i < prios.len(),
    ensures
        fitting_mask(prios, widths, prefix_w, avail)[i] <==> prefix_w + kept_width(widths, from_on(prios, i)) <= avail,
{
    let all = Seq::new(prios.len(), |k: int| true);
    let keep = fitting_mask(prios, widths, prefix_w, avail);
    lemma_gone_in_order(prios, widths, prefix_w, avail, all);
    lemma_fitted(prios, widths, prefix_w, avail, all);
    if keep[i] {
        assert forall|j: int| 0 <= j < prios.len() && #[trigger] from_on(prios, i)[j] implies keep[j] by {
            if !keep[j] {
                assert(j != i);
                assert(goes_before(prios, i, j));
            }
        }
        lemma_kept_width_grows(widths, from_on(prios, i), keep);
    }
}

/// A line that is wide enough keeps everything.
pub proof fn law_nothing_goes_without_need(prios: Seq<u8>, widths: Seq<usize>, prefix_w: nat, avail: nat, i: int)
    requires
        prefix_w + kept_width(widths, Seq::new(prios.len(), |k: int| true)) <= avail,
        0 <= i < prios.len(),
    ensures
        fitting_mask(prios, widths, prefix_w, avail)[i],
{
}

// ── badges ──────────────────────────────────────────────────────────────

/// What is known of the account's limits. Percentages are rounded to whole
/// numbers.
#[derive(Debug, Clone)]
pub struct QuotaSnapshot {
    pub percent_5h: Option<u32>,
    pub percent_7d: Option<u32>,
    pub overage_disabled_reason: Option<String>,
    pub is_using_overage: bool,
}

/// The window under the higher pressure; the short one where they are equal.
pub open spec fn pressed_window(s: QuotaSnapshot) -> Option<(Seq<char>, u32)> {
    match (s.percent_5h, s.percent_7d) {
        (Some(a), Some(b)) => if b > a {
            Some(("7d"@, b))
        } else {
            Some(("5h"@, a))
        },
        (Some(a), None) => Some(("5h"@, a)),
        (None, Some(b)) => Some(("7d"@, b)),
        (None, None) => None,
    }
}

/// The hint about use beyond the limit.
pub open spec fn overage_hint(s: QuotaSnapshot) -> Seq<char> {
    if s.overage_disabled_reason is Some {
        " · overage off"@
    } else if s.is_using_overage {
        " · overage"@
    } else {
        ""@
    }
}

/// The quota badge and its percentage.
pub open spec fn quota_label(s: QuotaSnapshot) -> Option<(Seq<char>, u32)> {
    match pressed_window(s) {
        None => None,
        Some((window, pct)) => Some((window + " "@ + decimal(pct as nat) + "%"@ + overage_hint(s), pct)),
    }
}

/// The rate-limit badge: the window under the higher pressure, with a hint about
/// overage. Nothing where no use is known.
pub fn quota_badge(snapshot: &QuotaSnapshot) -> (r: Option<(String, u32)>)
    ensures
        match r {
            Some((label, pct)) => quota_label(*snapshot) == Some((label@, pct)),
            None => quota_label(*snapshot) is None,
        },
{
    let (window, pct) = match (snapshot.percent_5h, snapshot.percent_7d) {
        (Some(a), Some(b)) => if b > a {
            ("7d", b)
        } else {
            ("5h", a)
        },
        (Some(a), None) => ("5h", a),
        (None, Some(b)) => ("7d", b),
        (None, None) => {
            return None;
        },
    };
    let hint = if snapshot.overage_disabled_reason.is_some() {
        " · overage off"
    } else if snapshot.is_using_overage {
        " · overage"
    } else {
        ""
    };
    let mut label = cat4(window, " ", decimal_text(pct as u64).as_str(), "%");
    label.push_str(hint);
    Some((label, pct))
}

/// The badge of the context gauge.
pub open spec fn gauge_label(used: nat, max: nat, pct: nat) -> Seq<char> {
    " ctx "@ + decimal(used / 1000) + "k / "@ + decimal(max / 1000) + "k · "@ + decimal(pct) + "% "@
}

/// The badge of the context gauge.
pub fn context_gauge_label(used: usize, max: usize, pct: u32) -> (r: String)
    ensures
        r@ == gauge_label(used as nat, max as nat, pct as nat),
{
    let mut out = cat4(" ctx ", count_text(used / 1000).as_str(), "k / ", count_text(max / 1000).as_str());
    out.push_str("k · ");
    out.push_str(decimal_text(pct as u64).as_str());
    out.push_str("% ");
    out
}

/// The effort badge: that of the standing mode, else the default's.
pub open spec fn effort_label(badge: Option<String>) -> Seq<char> {
    match badge {
        Some(b) => b@,
        None => "effort default"@,
    }
}

/// The effort badge.
pub fn effort_status_badge(badge: &Option<String>) -> (r: String)
    ensures
        r@ == effort_label(*badge),
{
    match badge {
        Some(b) => b.clone(),
        None => "effort default".to_owned(),
    }
}

/// The name of a plan in title case; an unknown one as it is.
pub open spec fn plan_name(subscription: Seq<char>) -> Seq<char> {
    if subscription == "max"@ {
        "Max"@
    } else if subscription == "pro"@ {
        "Pro"@
    } else if subscription == "team"@ {
        "Team"@
    } else if subscription == "enterprise"@ {
        "Enterprise"@
    } else if subscription == "free"@ {
        "Free"@
    } else {
        subscription
    }
}

/// The name of a plan in title case; an unknown one as it is.
pub fn pretty_plan_name(subscription: &str) -> (r: String)
    ensures
        r@ == plan_name(subscription@),
{
    if same_text(subscription, "max") {
        "Max".to_owned()
    } else if same_text(subscription, "pro") {
        "Pro".to_owned()
    } else if same_text(subscription, "team") {
        "Team".to_owned()
    } else if same_text(subscription, "enterprise") {
        "Enterprise".to_owned()
    } else if same_text(subscription, "free") {
        "Free".to_owned()
    } else {
        subscription.to_owned()
    }
}

/// The badge of plan and seat. Title case alone tells the plan from the effort
/// beside it.
pub open spec fn plan_label(subscription: Option<String>, seat: Option<String>) -> Option<Seq<char>> {
    match (subscription, seat) {
        (Some(plan), Some(seat)) => Some(plan_name(plan@) + "·"@ + seat@),
        (Some(plan), None) => Some(plan_name(plan@)),
        (None, Some(seat)) => Some(seat@),
        (None, None) => None,
    }
}

/// The badge of plan and seat, where one is known.
pub fn plan_badge(subscription: &Option<String>, seat: &Option<String>) -> (r: Option<String>)
    ensures
        opt_text(r) == plan_label(*subscription, *seat),
{
    match (subscription, seat) {
        (Some(plan), Some(seat)) => Some(
            cat3(pretty_plan_name(plan.as_str()).as_str(), "·", seat.as_str()),
        ),
        (Some(plan), None) => Some(pretty_plan_name(plan.as_str())),
        (None, Some(seat)) => Some(seat.clone()),
        (None, None) => None,
    }
}

// ── segments ────────────────────────────────────────────────────────────

/// One segment: its spans, and how important it is.
pub struct StatusSeg {
    pub spans: Vec<Span>,
    pub prio: u8,
}

/// What a segment shows.
pub open spec fn seg_model(s: StatusSeg) -> (Seq<(Seq<char>, Style)>, u8) {
    (spans_of(s.spans@), s.prio)
}

/// What a list of segments shows.
pub open spec fn seg_models(v: Seq<StatusSeg>) -> Seq<(Seq<(Seq<char>, Style)>, u8)> {
    v.map_values(|s: StatusSeg| seg_model(s))
}

/// One segment of one span, if the condition holds.
pub open spec fn seg_if(holds: bool, text: Seq<char>, style: Style, prio: u8) -> Seq<(Seq<(Seq<char>, Style)>, u8)> {
    if holds {
        seq![(seq![(text, style)], prio)]
    } else {
        Seq::empty()
    }
}

fn push_seg_if(segs: &mut Vec<StatusSeg>, holds: bool, text: String, style: Style, prio: u8)
    ensures
        seg_models(final(segs)@) == seg_models(old(segs)@) + seg_if(holds, text@, style, prio),
{
    if holds {
        let mut spans: Vec<Span> = Vec::new();
        spans.push(span(text, style));
        assert(spans_of(spans@) =~= seq![(text@, style)]);
        segs.push(StatusSeg { spans, prio });
    }
    assert(seg_models(segs@) =~= seg_models(old(segs)@) + seg_if(holds, text@, style, prio));
}

/// How far tools may act on their own.
#[derive(Debug, Clone, Copy, PartialEq, Eq, Structural)]
pub enum PermissionMode {
    Default,
    Plan,
    AcceptEdits,
    BypassPermissions,
    Auto,
}

/// The words for a mode.
pub open spec fn mode_words(mode: PermissionMode) -> Option<Seq<char>> {
    match mode {
        PermissionMode::Default => None,
        PermissionMode::Plan => Some("◇"@ + " "@ + "plan mode on"@),
        PermissionMode::AcceptEdits => Some("⏵⏵"@ + " "@ + "accept edits on"@),
        PermissionMode::BypassPermissions => Some("!!"@ + " "@ + "bypass permissions on"@),
        PermissionMode::Auto => Some("⏵⏵"@ + " "@ + "auto mode on"@),
    }
}

fn mode_text(mode: PermissionMode) -> (r: Option<String>)
    ensures
        opt_text(r) == mode_words(mode),
{
    match mode {
        PermissionMode::Default => None,
        PermissionMode::Plan => Some(cat3("◇", " ", "plan mode on")),
        PermissionMode::AcceptEdits => Some(cat3("⏵⏵", " ", "accept edits on")),
        PermissionMode::BypassPermissions => Some(cat3("!!", " ", "bypass permissions on")),
        PermissionMode::Auto => Some(cat3("⏵⏵", " ", "auto mode on")),
    }
}

/// What the provider's status page says.
#[derive(Debug, Clone)]
pub struct ServiceStatus {
    pub degraded: bool,
    pub short_badge: String,
}

/// What the microphone is doing.
#[derive(Debug, Clone, Copy, PartialEq, Eq, Structural)]
pub enum VoiceState {
    Idle,
    Recording,
    Processing,
}

/// Everything that the status line shows.
#[derive(Debug)]
pub struct StatusState {
    pub permission_mode: PermissionMode,
    /// The label of an interaction mode that the user set.
    pub interaction_mode: Option<String>,
    pub safe_mode: bool,
    /// Managed settings forbid plugin directories or addresses.
    pub plugins_managed_off: bool,
    pub mcp_servers: Vec<McpServer>,
    pub service_status: Option<ServiceStatus>,
    pub service_status_failed: bool,
    pub approval_queue: usize,
    pub pending_approval: bool,
    pub leader_key_active: bool,
    pub viewing_task: bool,
    pub queued_prompts: usize,
    pub fast_mode: bool,
    pub effort_set: bool,
    pub effort_badge: Option<String>,
    /// How many clients are connected, where the session is shared.
    pub remote_clients: Option<usize>,
    pub git_branch: Option<String>,
    pub diff: DiffStats,
    /// The use of the context in whole percent.
    pub context_percent: u32,
    pub quota: Option<QuotaSnapshot>,
    /// Milliseconds since the session was saved.
    pub saved_ms_ago: Option<u128>,
    pub voice_state: VoiceState,
    /// The grey of the pulse while speech is transcribed.
    pub voice_pulse: Tone,
    pub voice_interim: Option<String>,
}

/// The names of the servers that are down.
pub open spec fn down_names(servers: Seq<McpServer>) -> Seq<Seq<char>>
    decreases servers.len(),
{
    if servers.len() == 0 {
        Seq::empty()
    } else if servers.last().status == McpStatus::Error {
        down_names(servers.drop_last()).push(servers.last().name@)
    } else {
        down_names(servers.drop_last())
    }
}

fn servers_down(servers: &Vec<McpServer>) -> (r: Vec<String>)
    ensures
        texts(r@) == down_names(servers@),
{
    let mut out: Vec<String> = Vec::new();
    let mut i: usize = 0;
    assert(texts(out@) =~= down_names(servers@.take(0)));
    while i < servers.len()
        invariant
            i <= servers@.len(),
            texts(out@) == down_names(servers@.take(i as int)),
        decreases servers@.len() - i,
    {
        assert(servers@.take(i + 1).drop_last() =~= servers@.take(i as int));
        if servers[i].status == McpStatus::Error {
            out.push(servers[i].name.clone());
        }
        i += 1;
    }
    assert(servers@.take(i as int) =~= servers@);
    out
}

/// The muted style of routine segments.
pub open spec fn muted_style() -> Style {
    Style::in_tone(Tone::TextMuted)
}

/// The style of alerts.
pub open spec fn alert_style() -> Style {
    Style::in_tone(Tone::Warning)
}

/// The style of modes.
pub open spec fn activity_style() -> Style {
    Style::in_tone(Tone::AccentSecondary)
}

/// The modes: permissions, interaction, safe mode, plugins.
pub open spec fn mode_segs(s: StatusState) -> Seq<(Seq<(Seq<char>, Style)>, u8)> {
    let permission = match mode_words(s.permission_mode) {
        Some(words) => seg_if(true, words, alert_style().made_bold(), 88),
        None => Seq::empty(),
    };
    let interaction = match s.interaction_mode {
        Some(label) => seg_if(true, "["@ + lowercase(label@) + "]"@, activity_style(), 60),
        None => Seq::empty(),
    };
    permission + interaction + seg_if(s.safe_mode, "safe mode"@, alert_style().made_bold(), 97) + seg_if(
        s.safe_mode || s.plugins_managed_off,
        "plugins off"@,
        muted_style(),
        62,
    )
}

fn mode_segments(s: &StatusState) -> (r: Vec<StatusSeg>)
    ensures
        seg_models(r@) == mode_segs(*s),
{
    let mut segs: Vec<StatusSeg> = Vec::new();
    assert(seg_models(segs@) =~= Seq::empty());
    let alert = Style::fg(Tone::Warning);
    if let Some(words) = mode_text(s.permission_mode) {
        push_seg_if(&mut segs, true, words, alert.bold(), 88);
    } else {
        assert(seg_models(segs@) + Seq::empty() =~= seg_models(segs@));
    }
    if let Some(label) = &s.interaction_mode {
        push_seg_if(
            &mut segs,
            true,
            cat3("[", to_lowercase(label.as_str()).as_str(), "]"),
            Style::fg(Tone::AccentSecondary),
            60,
        );
    } else {
        assert(seg_models(segs@) + Seq::empty() =~= seg_models(segs@));
    }
    push_seg_if(&mut segs, s.safe_mode, "safe mode".to_owned(), alert.bold(), 97);
    push_seg_if(
        &mut segs,
        s.safe_mode || s.plugins_managed_off,
        "plugins off".to_owned(),
        Style::fg(Tone::TextMuted),
        62,
    );
    segs
}

/// How many decisions wait for the user.
pub open spec fn approvals(s: StatusState) -> nat {
    s.approval_queue as nat + (if s.pending_approval {
        1nat
    } else {
        0
    })
}

/// What needs attention: servers, the service, approvals.
pub open spec fn problem_segs(s: StatusState) -> Seq<(Seq<(Seq<char>, Style)>, u8)> {
    let down = down_names(s.mcp_servers@);
    let service = match s.service_status {
        Some(status) => seg_if(status.degraded, status.short_badge@, alert_style(), 96),
        None => seg_if(
            s.service_status_failed,
            "status unreachable"@,
            Style::in_tone(Tone::Error),
            96,
        ),
    };
    seg_if(
        down.len() > 0,
        "MCP issue: "@ + joined(down, ", "@) + " · /doctor"@,
        Style::in_tone(Tone::Error).made_bold(),
        98,
    ) + service + seg_if(
        approvals(s) > 0,
        decimal(approvals(s)) + " awaiting approval"@,
        alert_style().made_bold(),
        94,
    )
}

fn problem_segments(s: &StatusState) -> (r: Vec<StatusSeg>)
    ensures
        seg_models(r@) == problem_segs(*s),
{
    let mut segs: Vec<StatusSeg> = Vec::new();
    assert(seg_models(segs@) =~= Seq::empty());
    let down = servers_down(&s.mcp_servers);
    let names = join(&down, ", ");
    push_seg_if(
        &mut segs,
        down.len() > 0,
        cat3("MCP issue: ", names.as_str(), " · /doctor"),
        Style::fg(Tone::Error).bold(),
        98,
    );
    match &s.service_status {
        Some(status) => {
            push_seg_if(&mut segs, status.degraded, status.short_badge.clone(), Style::fg(Tone::Warning), 96);
        },
        None => {
            push_seg_if(
                &mut segs,
                s.service_status_failed,
                "status unreachable".to_owned(),
                Style::fg(Tone::Error),
                96,
            );
        },
    }
    let count: u128 = s.approval_queue as u128 + (if s.pending_approval {
        1
    } else {
        0
    });
    let mut waiting = String::new();
    push_decimal(&mut waiting, count);
    assert(waiting@ =~= decimal(approvals(*s)));
    push_seg_if(
        &mut segs,
        count > 0,
        cat2(waiting.as_str(), " awaiting approval"),
        Style::fg(Tone::Warning).bold(),
        94,
    );
    segs
}

/// What the session is doing: key modes, queue, speed, effort, sharing, branch.
pub open spec fn activity_segs(s: StatusState) -> Seq<(Seq<(Seq<char>, Style)>, u8)> {
    let view = if s.leader_key_active {
        seg_if(true, "leader key"@, Style::in_tone(Tone::Accent), 90)
    } else {
        seg_if(s.viewing_task, "agent view"@, Style::in_tone(Tone::Accent), 86)
    };
    let remote = match s.remote_clients {
        Some(n) => seg_if(
            true,
            if n > 0 {
                "RC "@ + decimal(n as nat)
            } else {
                "RC"@
            },
            activity_style(),
            55,
        ),
        None => Seq::empty(),
    };
    let branch = match s.git_branch {
        Some(b) => seg_if(b@.len() > 0, "git "@ + shortened(b@, 24), muted_style(), 35),
        None => Seq::empty(),
    };
    view + seg_if(s.queued_prompts > 0, decimal(s.queued_prompts as nat) + " queued"@, muted_style(), 80) + seg_if(
        s.fast_mode,
        "fast"@,
        activity_style(),
        60,
    ) + seg_if(s.effort_set, effort_label(s.effort_badge), muted_style(), 45) + remote + branch
}

fn activity_segments(s: &StatusState) -> (r: Vec<StatusSeg>)
    ensures
        seg_models(r@) == activity_segs(*s),
{
    let mut segs: Vec<StatusSeg> = Vec::new();
    assert(seg_models(segs@) =~= Seq::empty());
    let muted = Style::fg(Tone::TextMuted);
    let activity = Style::fg(Tone::AccentSecondary);
    if s.leader_key_active {
        push_seg_if(&mut segs, true, "leader key".to_owned(), Style::fg(Tone::Accent), 90);
    } else {
        push_seg_if(&mut segs, s.viewing_task, "agent view".to_owned(), Style::fg(Tone::Accent), 86);
    }
    push_seg_if(
        &mut segs,
        s.queued_prompts > 0,
        cat2(count_text(s.queued_prompts).as_str(), " queued"),
        muted,
        80,
    );
    push_seg_if(&mut segs, s.fast_mode, "fast".to_owned(), activity, 60);
    push_seg_if(&mut segs, s.effort_set, effort_status_badge(&s.effort_badge), muted, 45);
    if let Some(n) = s.remote_clients {
        let label = if n > 0 {
            cat2("RC ", count_text(n).as_str())
        } else {
            "RC".to_owned()
        };
        push_seg_if(&mut segs, true, label, activity, 55);
    } else {
        assert(seg_models(segs@) + Seq::empty() =~= seg_models(segs@));
    }
    if let Some(b) = &s.git_branch {
        push_seg_if(
            &mut segs,
            !b.as_str().is_empty(),
            cat2("git ", truncate_str(b.as_str(), 24).as_str()),
            muted,
            35,
        );
    } else {
        assert(seg_models(segs@) + Seq::empty() =~= seg_models(segs@));
    }
    segs
}

/// The quota segment: only under pressure, or with overage.
pub open spec fn quota_segs(quota: Option<QuotaSnapshot>) -> Seq<(Seq<(Seq<char>, Style)>, u8)> {
    match quota {
        None => Seq::empty(),
        Some(q) => match quota_label(q) {
            None => Seq::empty(),
            Some((label, pct)) => seg_if(
                pct >= 80 || has_text(label, "overage"@),
                label,
                if pct >= 95 {
                    Style::in_tone(Tone::Error)
                } else if pct >= 80 {
                    Style::in_tone(Tone::Warning)
                } else {
                    muted_style()
                },
                89,
            ),
        },
    }
}

/// The spans of the diff segment.
pub open spec fn diff_spans(d: DiffStats) -> Seq<(Seq<char>, Style)> {
    seq![
        ("+"@ + decimal(d.additions as nat), Style::in_tone(Tone::DiffAdded)),
        (" "@, muted_style()),
        ("−"@ + decimal(d.deletions as nat), Style::in_tone(Tone::DiffRemoved)),
    ]
}

/// What is used and changed: diff, context, quota, the last save.
pub open spec fn usage_segs(s: StatusState) -> Seq<(Seq<(Seq<char>, Style)>, u8)> {
    let diff = if s.diff.total_files > 0 {
        seq![(diff_spans(s.diff), 50u8)]
    } else {
        Seq::empty()
    };
    let saved = match s.saved_ms_ago {
        Some(ms) => seg_if(ms < 2000, "saved"@, Style::in_tone(Tone::Success), 40),
        None => Seq::empty(),
    };
    diff + seg_if(
        s.context_percent >= 70,
        "ctx "@ + decimal(s.context_percent as nat) + "%"@,
        if s.context_percent >= 90 {
            Style::in_tone(Tone::Error)
        } else {
            Style::in_tone(Tone::Warning)
        },
        91,
    ) + quota_segs(s.quota) + saved
}

fn usage_segments(s: &StatusState) -> (r: Vec<StatusSeg>)
    ensures
        seg_models(r@) == usage_segs(*s),
{
    let mut segs: Vec<StatusSeg> = Vec::new();
    assert(seg_models(segs@) =~= Seq::empty());
    let muted = Style::fg(Tone::TextMuted);
    if s.diff.total_files > 0 {
        let mut spans: Vec<Span> = Vec::new();
        spans.push(span(cat2("+", count_text(s.diff.additions).as_str()), Style::fg(Tone::DiffAdded)));
        spans.push(span(" ".to_owned(), muted));
        spans.push(span(cat2("−", count_text(s.diff.deletions).as_str()), Style::fg(Tone::DiffRemoved)));
        assert(spans_of(spans@) =~= diff_spans(s.diff));
        segs.push(StatusSeg { spans, prio: 50 });
        assert(seg_models(segs@) =~= seq![(diff_spans(s.diff), 50u8)]);
    }
    let pct: u32 = s.context_percent;
    push_seg_if(
        &mut segs,
        pct >= 70,
        cat3("ctx ", decimal_text(pct as u64).as_str(), "%"),
        if pct >= 90 {
            Style::fg(Tone::Error)
        } else {
            Style::fg(Tone::Warning)
        },
        91,
    );
    if let Some(q) = &s.quota {
        if let Some((label, pct)) = quota_badge(q) {
            let style = if pct >= 95 {
                Style::fg(Tone::Error)
            } else if pct >= 80 {
                Style::fg(Tone::Warning)
            } else {
                muted
            };
            let shown = pct >= 80 || contains(label.as_str(), "overage");
            push_seg_if(&mut segs, shown, label, style, 89);
        } else {
        assert(seg_models(segs@) + Seq::empty() =~= seg_models(segs@));
    }
    } else {
        assert(seg_models(segs@) + Seq::empty() =~= seg_models(segs@));
    }
    if let Some(ms) = s.saved_ms_ago {
        push_seg_if(&mut segs, ms < 2000, "saved".to_owned(), Style::fg(Tone::Success), 40);
    } else {
        assert(seg_models(segs@) + Seq::empty() =~= seg_models(segs@));
    }
    segs
}

/// All segments; the help hint where there are none.
pub open spec fn all_segs(s: StatusState) -> Seq<(Seq<(Seq<char>, Style)>, u8)> {
    let found = mode_segs(s) + problem_segs(s) + activity_segs(s) + usage_segs(s);
    if found.len() == 0 {
        seg_if(true, "? help"@, muted_style(), 10)
    } else {
        found
    }
}

fn append_segs(segs: &mut Vec<StatusSeg>, more: Vec<StatusSeg>)
    ensures
        seg_models(final(segs)@) == seg_models(old(segs)@) + seg_models(more@),
{
    let mut rest = more;
    segs.append(&mut rest);
    assert(seg_models(segs@) =~= seg_models(old(segs)@) + seg_models(more@));
}

fn segments(s: &StatusState) -> (r: Vec<StatusSeg>)
    ensures
        seg_models(r@) == all_segs(*s),
{
    let mut segs = mode_segments(s);
    append_segs(&mut segs, problem_segments(s));
    append_segs(&mut segs, activity_segments(s));
    append_segs(&mut segs, usage_segments(s));
    if segs.len() == 0 {
        push_seg_if(&mut segs, true, "? help".to_owned(), Style::fg(Tone::TextMuted), 10);
        assert(seg_models(segs@) =~= seg_if(true, "? help"@, muted_style(), 10));
    }
    segs
}

// ── the line ────────────────────────────────────────────────────────────

/// The sum, or the largest number.
pub open spec fn sat_width(a: int, b: int) -> usize {
    if a + b > usize::MAX {
        usize::MAX
    } else {
        (a + b) as usize
    }
}

/// The columns of a segment behind its separator.
pub open spec fn seg_columns(spans: Seq<(Seq<char>, Style)>) -> usize
    decreases spans.len(),
{
    if spans.len() == 0 {
        3
    } else {
        sat_width(seg_columns(spans.drop_last()) as int, text_columns(spans.last().0) as int)
    }
}

fn seg_width(seg: &StatusSeg) -> (r: usize)
    ensures
        r == seg_columns(spans_of(seg.spans@)),
{
    let ghost all = spans_of(seg.spans@);
    let mut total: usize = 3;
    let mut i: usize = 0;
    while i < seg.spans.len()
        invariant
            i <= seg.spans@.len(),
            all == spans_of(seg.spans@),
            total == seg_columns(all.take(i as int)),
        decreases seg.spans@.len() - i,
    {
        assert(all.take(i + 1).drop_last() =~= all.take(i as int));
        assert(all.take(i + 1).last() == seg.spans@[i as int]@);
        total = total.saturating_add(cell_width(seg.spans[i].text.as_str()));
        i += 1;
    }
    assert(all.take(i as int) =~= all);
    total
}

/// The priorities of segments.
pub open spec fn seg_prios(segs: Seq<(Seq<(Seq<char>, Style)>, u8)>) -> Seq<u8> {
    segs.map_values(|s: (Seq<(Seq<char>, Style)>, u8)| s.1)
}

/// The columns of segments.
pub open spec fn seg_widths(segs: Seq<(Seq<(Seq<char>, Style)>, u8)>) -> Seq<usize> {
    segs.map_values(|s: (Seq<(Seq<char>, Style)>, u8)| seg_columns(s.0))
}

/// Which segments stay in `width` columns.
pub open spec fn seg_mask(segs: Seq<(Seq<(Seq<char>, Style)>, u8)>, width: u16) -> Seq<bool> {
    fitting_mask(seg_prios(segs), seg_widths(segs), 0, width as nat)
}

/// The spans of the segments that stay, with separators. Nothing stands before
/// the first one, unless something stood on the line already.
pub open spec fn joined_segs(
    segs: Seq<(Seq<(Seq<char>, Style)>, u8)>,
    keep: Seq<bool>,
    preceded: bool,
) -> Seq<(Seq<char>, Style)>
    decreases segs.len(),
{
    if segs.len() == 0 {
        Seq::empty()
    } else {
        let before = joined_segs(segs.drop_last(), keep, preceded);
        if !keep[segs.len() - 1] {
            before
        } else if preceded || any_kept(keep, segs.len() - 1) {
            before.push((" · "@, muted_style())) + segs.last().0
        } else {
            before + segs.last().0
        }
    }
}

/// Some segment before `n` stays.
pub open spec fn any_kept(keep: Seq<bool>, n: int) -> bool {
    exists|i: int| 0 <= i < n && #[trigger] keep[i]
}

/// What was heard so far: cut to thirty-seven bytes where it takes more than
/// forty.
pub open spec fn interim_preview(interim: Seq<char>) -> Seq<char> {
    if utf8_size(interim) > 40 {
        cut_at_bytes(interim, 37) + "…"@
    } else {
        interim
    }
}

/// What the microphone is doing.
pub open spec fn voice_spans(s: StatusState) -> Seq<(Seq<char>, Style)> {
    match s.voice_state {
        VoiceState::Recording => seq![("recording"@, Style::in_tone(Tone::Error).made_bold())],
        VoiceState::Processing => seq![("transcribing"@, Style::in_tone(s.voice_pulse))],
        VoiceState::Idle => match s.voice_interim {
            Some(interim) => seq![
                ("\""@ + interim_preview(interim@) + "\""@, Style::in_tone(Tone::TextMuted)),
            ],
            None => Seq::empty(),
        },
    }
}

/// A preview can be cut between two characters.
pub open spec fn interim_can_be_cut(interim: Option<String>) -> bool {
    match interim {
        Some(t) => utf8_size(t@) > 40 ==> utf8_size(cut_at_bytes(t@, 37)) == 37,
        None => true,
    }
}

/// The status line.
pub open spec fn status_spans(s: StatusState, width: u16) -> Seq<(Seq<char>, Style)> {
    let voice = voice_spans(s);
    let segs = all_segs(s);
    seq![("  "@, Style::plain_style())] + voice + joined_segs(segs, seg_mask(segs, width), voice.len() > 0)
}

/// No segment of the status line goes needlessly: one stays exactly where it fits
/// together with all that go later than it.
pub proof fn law_status_drops_nothing_needlessly(s: StatusState, width: u16, i: int)
    requires
        0 <= i < all_segs(s).len(),
    ensures
        seg_mask(all_segs(s), width)[i] <==> kept_width(
            seg_widths(all_segs(s)),
            from_on(seg_prios(all_segs(s)), i),
        ) <= width,
{
    law_segments_stay_where_they_fit(seg_prios(all_segs(s)), seg_widths(all_segs(s)), 0, width as nat, i);
}

fn push_voice(spans: &mut Vec<Span>, s: &StatusState)
    requires
        s.voice_state == VoiceState::Idle ==> interim_can_be_cut(s.voice_interim),
    ensures
        spans_of(final(spans)@) == spans_of(old(spans)@) + voice_spans(*s),
{
    let ghost before = spans_of(spans@);
    match s.voice_state {
        VoiceState::Recording => {
            spans.push(span("recording".to_owned(), Style::fg(Tone::Error).bold()));
        },
        VoiceState::Processing => {
            spans.push(span("transcribing".to_owned(), Style::fg(s.voice_pulse)));
        },
        VoiceState::Idle => {
            if let Some(interim) = &s.voice_interim {
                let preview = if longer_than_bytes(interim.as_str(), 40) {
                    cat2(cut_bytes(interim.as_str(), 37).as_str(), "…")
                } else {
                    interim.clone()
                };
                spans.push(span(cat3("\"", preview.as_str(), "\""), Style::fg(Tone::TextMuted)));
            }
        },
    }
    assert(spans_of(spans@) =~= before + voice_spans(*s));
}

fn fitting_segments(segs: &Vec<StatusSeg>, width: u16) -> (r: Vec<bool>)
    ensures
        r@ == seg_mask(seg_models(segs@), width),
        r@.len() == segs@.len(),
{
    let ghost model = seg_models(segs@);
    let mut prios: Vec<u8> = Vec::new();
    let mut widths: Vec<usize> = Vec::new();
    let mut i: usize = 0;
    assert(prios@ =~= seg_prios(model).take(0));
    assert(widths@ =~= seg_widths(model).take(0));
    while i < segs.len()
        invariant
            i <= segs@.len(),
            model == seg_models(segs@),
            prios@ == seg_prios(model).take(i as int),
            widths@ == seg_widths(model).take(i as int),
        decreases segs@.len() - i,
    {
        assert(model[i as int] == seg_model(segs@[i as int]));
        prios.push(segs[i].prio);
        widths.push(seg_width(&segs[i]));
        assert(prios@ =~= seg_prios(model).take(i + 1));
        assert(widths@ =~= seg_widths(model).take(i + 1));
        i += 1;
    }
    assert(seg_prios(model).take(i as int) =~= seg_prios(model));
    assert(seg_widths(model).take(i as int) =~= seg_widths(model));
    fit_segments(prios.as_slice(), widths.as_slice(), 0, width as usize)
}

fn clone_spans_onto(out: &mut Vec<Span>, more: &Vec<Span>)
    ensures
        spans_of(final(out)@) == spans_of(old(out)@) + spans_of(more@),
{
    let ghost before = spans_of(out@);
    let ghost all = spans_of(more@);
    let mut i: usize = 0;
    assert(before + all.take(0) =~= before);
    while i < more.len()
        invariant
            i <= more@.len(),
            all == spans_of(more@),
            spans_of(out@) == before + all.take(i as int),
        decreases more@.len() - i,
    {
        out.push(more[i].clone());
        assert(spans_of(out@) =~= before + all.take(i + 1));
        i += 1;
    }
    assert(all.take(i as int) =~= all);
}

/// The status line in `width` columns.
pub fn status(s: &StatusState, width: u16) -> (r: Line)
    requires
        s.voice_state == VoiceState::Idle ==> interim_can_be_cut(s.voice_interim),
    ensures
        r@ == status_spans(*s, width),
{
    let segs = segments(s);
    let ghost model = seg_models(segs@);
    let keep = fitting_segments(&segs, width);
    let mut spans: Vec<Span> = Vec::new();
    spans.push(span("  ".to_owned(), Style::plain()));
    push_voice(&mut spans, s);
    let had_voice = spans.len() > 1;
    let ghost before = spans_of(spans@);
    assert(before =~= seq![("  "@, Style::plain_style())] + voice_spans(*s));
    let muted = Style::fg(Tone::TextMuted);
    let mut any = false;
    let mut i: usize = 0;
    assert(before + joined_segs(model.take(0), keep@, had_voice) =~= before);
    while i < segs.len()
        invariant
            i <= segs@.len() == keep@.len(),
            model == seg_models(segs@),
            muted == muted_style(),
            any == any_kept(keep@, i as int),
            spans_of(spans@) == before + joined_segs(model.take(i as int), keep@, had_voice),
        decreases segs@.len() - i,
    {
        assert(model.take(i + 1).drop_last() =~= model.take(i as int));
        assert(model.take(i + 1).last() == seg_model(segs@[i as int]));
        if keep[i] {
            if any || had_voice {
                spans.push(span(" · ".to_owned(), muted));
            }
            clone_spans_onto(&mut spans, &segs[i].spans);
            any = true;
        }
        assert(spans_of(spans@) =~= before + joined_segs(model.take(i + 1), keep@, had_voice));
        i += 1;
    }
    assert(model.take(i as int) =~= model);
    Line { spans }
}

/// A segment of the line holds this text.
pub open spec fn says(segs: Seq<(Seq<(Seq<char>, Style)>, u8)>, w: Seq<char>) -> bool {
    exists|k: int| 0 <= k < segs.len() && has_text(row_text((#[trigger] segs[k]).0), w)
}

proof fn lemma_says_in_sum(
    a: Seq<(Seq<(Seq<char>, Style)>, u8)>,
    b: Seq<(Seq<(Seq<char>, Style)>, u8)>,
    w: Seq<char>,
)
    ensures
        says(a, w) ==> says(a + b, w),
        says(b, w) ==> says(a + b, w),
{
    if says(a, w) {
        let k = choose|k: int| 0 <= k < a.len() && has_text(row_text((#[trigger] a[k]).0), w);
        assert((a + b)[k] == a[k]);
    }
    if says(b, w) {
        let k = choose|k: int| 0 <= k < b.len() && has_text(row_text((#[trigger] b[k]).0), w);
        assert((a + b)[a.len() + k] == b[k]);
    }
}

proof fn lemma_seg_says(text: Seq<char>, style: Style, prio: u8, w: Seq<char>)
    requires
        has_text(text, w),
    ensures
        says(seg_if(true, text, style, prio), w),
{
    let segs = seg_if(true, text, style, prio);
    lemma_row_has(segs[0].0, 0, w);
}

proof fn lemma_down_names_has(servers: Seq<McpServer>, k: int)
    requires
        0 <= k < servers.len(),
        servers[k].status == McpStatus::Error,
    ensures
        down_names(servers).contains(servers[k].name@),
    decreases servers.len(),
{
    let front = servers.drop_last();
    let name = servers[k].name@;
    if k < front.len() {
        lemma_down_names_has(front, k);
        let i = choose|i: int| 0 <= i < down_names(front).len() && down_names(front)[i] == name;
        assert(down_names(servers)[i] == name);
    } else {
        assert(down_names(servers)[down_names(front).len() as int] == name);
    }
}

/// Every server that is down is named.
pub proof fn law_servers_that_are_down_are_named(s: StatusState, k: int)
    requires
        0 <= k < s.mcp_servers@.len(),
        s.mcp_servers@[k].status == McpStatus::Error,
    ensures
        says(problem_segs(s), s.mcp_servers@[k].name@),
{
    let down = down_names(s.mcp_servers@);
    let name = s.mcp_servers@[k].name@;
    lemma_down_names_has(s.mcp_servers@, k);
    let i = choose|i: int| 0 <= i < down.len() && down[i] == name;
    lemma_joined_has(down, ", "@, i);
    lemma_has_in_sum("MCP issue: "@, joined(down, ", "@), name);
    lemma_has_in_sum("MCP issue: "@ + joined(down, ", "@), " · /doctor"@, name);
    let text = "MCP issue: "@ + joined(down, ", "@) + " · /doctor"@;
    let style = Style::in_tone(Tone::Error).made_bold();
    lemma_seg_says(text, style, 98, name);
    let first = seg_if(true, text, style, 98);
    let service = match s.service_status {
        Some(status) => seg_if(status.degraded, status.short_badge@, alert_style(), 96),
        None => seg_if(s.service_status_failed, "status unreachable"@, Style::in_tone(Tone::Error), 96),
    };
    let last = seg_if(
        approvals(s) > 0,
        decimal(approvals(s)) + " awaiting approval"@,
        alert_style().made_bold(),
        94,
    );
    lemma_says_in_sum(first, service, name);
    lemma_says_in_sum(first + service, last, name);
}

/// What waits for an answer is counted, the one that is being asked too, and a service
/// in trouble is named.
pub proof fn law_approvals_are_counted(s: StatusState)
    ensures
        approvals(s) == s.approval_queue + (if s.pending_approval {
            1int
        } else {
            0
        }),
        approvals(s) > 0 ==> says(problem_segs(s), decimal(approvals(s)) + " awaiting approval"@),
        s.service_status matches Some(status) ==> status.degraded ==> says(problem_segs(s), status.short_badge@),
{
    let down = down_names(s.mcp_servers@);
    let first = seg_if(
        down.len() > 0,
        "MCP issue: "@ + joined(down, ", "@) + " · /doctor"@,
        Style::in_tone(Tone::Error).made_bold(),
        98,
    );
    let service = match s.service_status {
        Some(status) => seg_if(status.degraded, status.short_badge@, alert_style(), 96),
        None => seg_if(s.service_status_failed, "status unreachable"@, Style::in_tone(Tone::Error), 96),
    };
    let text = decimal(approvals(s)) + " awaiting approval"@;
    let last = seg_if(approvals(s) > 0, text, alert_style().made_bold(), 94);
    if approvals(s) > 0 {
        lemma_has_itself(text);
        lemma_seg_says(text, alert_style().made_bold(), 94, text);
        lemma_says_in_sum(first + service, last, text);
    }
    if s.service_status is Some && s.service_status->0.degraded {
        let badge = s.service_status->0.short_badge@;
        lemma_has_itself(badge);
        lemma_seg_says(badge, alert_style(), 96, badge);
        lemma_says_in_sum(first, service, badge);
        lemma_says_in_sum(first + service, last, badge);
    }
}

/// A mode that is not the usual one is on the line, and so is the safe mode.
pub proof fn law_modes_are_on_the_line(s: StatusState)
    ensures
        s.permission_mode == PermissionMode::Plan ==> says(mode_segs(s), "plan mode on"@),
        s.permission_mode == PermissionMode::AcceptEdits ==> says(mode_segs(s), "accept edits on"@),
        s.permission_mode == PermissionMode::BypassPermissions ==> says(mode_segs(s), "bypass permissions on"@),
        s.permission_mode == PermissionMode::Auto ==> says(mode_segs(s), "auto mode on"@),
        s.safe_mode ==> says(mode_segs(s), "safe mode"@) && says(mode_segs(s), "plugins off"@),
        s.plugins_managed_off ==> says(mode_segs(s), "plugins off"@),
{
    let permission = match mode_words(s.permission_mode) {
        Some(words) => seg_if(true, words, alert_style().made_bold(), 88),
        None => Seq::empty(),
    };
    let interaction = match s.interaction_mode {
        Some(label) => seg_if(true, "["@ + lowercase(label@) + "]"@, activity_style(), 60),
        None => Seq::empty(),
    };
    let safe = seg_if(s.safe_mode, "safe mode"@, alert_style().made_bold(), 97);
    let plugins = seg_if(s.safe_mode || s.plugins_managed_off, "plugins off"@, muted_style(), 62);
    if s.permission_mode != PermissionMode::Default {
        let word = match s.permission_mode {
            PermissionMode::Plan => "plan mode on"@,
            PermissionMode::AcceptEdits => "accept edits on"@,
            PermissionMode::BypassPermissions => "bypass permissions on"@,
            PermissionMode::Auto => "auto mode on"@,
            PermissionMode::Default => ""@,
        };
        let words = mode_words(s.permission_mode)->0;
        let sign = match s.permission_mode {
            PermissionMode::Plan => "◇"@,
            PermissionMode::BypassPermissions => "!!"@,
            _ => "⏵⏵"@,
        };
        assert(words == sign + " "@ + word);
        lemma_has_in_sum(sign + " "@, word, word);
        lemma_seg_says(words, alert_style().made_bold(), 88, word);
        lemma_says_in_sum(permission, interaction, word);
        lemma_says_in_sum(permission + interaction, safe, word);
        lemma_says_in_sum(permission + interaction + safe, plugins, word);
    }
    if s.safe_mode {
        lemma_has_itself("safe mode"@);
        lemma_seg_says("safe mode"@, alert_style().made_bold(), 97, "safe mode"@);
        lemma_says_in_sum(permission + interaction, safe, "safe mode"@);
        lemma_says_in_sum(permission + interaction + safe, plugins, "safe mode"@);
    }
    if s.safe_mode || s.plugins_managed_off {
        lemma_has_itself("plugins off"@);
        lemma_seg_says("plugins off"@, muted_style(), 62, "plugins off"@);
        lemma_says_in_sum(permission + interaction + safe, plugins, "plugins off"@);
    }
}

proof fn lemma_says_in_six(
    a: Seq<(Seq<(Seq<char>, Style)>, u8)>,
    b: Seq<(Seq<(Seq<char>, Style)>, u8)>,
    c: Seq<(Seq<(Seq<char>, Style)>, u8)>,
    d: Seq<(Seq<(Seq<char>, Style)>, u8)>,
    e: Seq<(Seq<(Seq<char>, Style)>, u8)>,
    f: Seq<(Seq<(Seq<char>, Style)>, u8)>,
    w: Seq<char>,
)
    requires
        says(a, w) || says(b, w) || says(c, w) || says(d, w) || says(e, w) || says(f, w),
    ensures
        says(a + b + c + d + e + f, w),
{
    lemma_says_in_sum(a, b, w);
    lemma_says_in_sum(a + b, c, w);
    lemma_says_in_sum(a + b + c, d, w);
    lemma_says_in_sum(a + b + c + d, e, w);
    lemma_says_in_sum(a + b + c + d + e, f, w);
}

/// What waits to be sent is counted, and the branch is named.
pub proof fn law_queue_and_branch_are_on_the_line(s: StatusState)
    ensures
        s.queued_prompts > 0 ==> says(activity_segs(s), decimal(s.queued_prompts as nat) + " queued"@),
        s.git_branch matches Some(b) ==> b@.len() > 0 ==> says(activity_segs(s), "git "@ + shortened(b@, 24)),
        s.fast_mode ==> says(activity_segs(s), "fast"@),
        s.viewing_task && !s.leader_key_active ==> says(activity_segs(s), "agent view"@),
{
    let view = if s.leader_key_active {
        seg_if(true, "leader key"@, Style::in_tone(Tone::Accent), 90)
    } else {
        seg_if(s.viewing_task, "agent view"@, Style::in_tone(Tone::Accent), 86)
    };
    let queued = decimal(s.queued_prompts as nat) + " queued"@;
    let queue = seg_if(s.queued_prompts > 0, queued, muted_style(), 80);
    let fast = seg_if(s.fast_mode, "fast"@, activity_style(), 60);
    let effort = seg_if(s.effort_set, effort_label(s.effort_badge), muted_style(), 45);
    let remote = match s.remote_clients {
        Some(n) => seg_if(
            true,
            if n > 0 {
                "RC "@ + decimal(n as nat)
            } else {
                "RC"@
            },
            activity_style(),
            55,
        ),
        None => Seq::empty(),
    };
    let branch = match s.git_branch {
        Some(b) => seg_if(b@.len() > 0, "git "@ + shortened(b@, 24), muted_style(), 35),
        None => Seq::empty(),
    };
    assert(activity_segs(s) == view + queue + fast + effort + remote + branch);
    if s.viewing_task && !s.leader_key_active {
        lemma_has_itself("agent view"@);
        lemma_seg_says("agent view"@, Style::in_tone(Tone::Accent), 86, "agent view"@);
        lemma_says_in_six(view, queue, fast, effort, remote, branch, "agent view"@);
    }
    if s.queued_prompts > 0 {
        lemma_has_itself(queued);
        lemma_seg_says(queued, muted_style(), 80, queued);
        lemma_says_in_six(view, queue, fast, effort, remote, branch, queued);
    }
    if s.fast_mode {
        lemma_has_itself("fast"@);
        lemma_seg_says("fast"@, activity_style(), 60, "fast"@);
        lemma_says_in_six(view, queue, fast, effort, remote, branch, "fast"@);
    }
    if s.git_branch is Some && s.git_branch->0@.len() > 0 {
        let text = "git "@ + shortened(s.git_branch->0@, 24);
        lemma_has_itself(text);
        lemma_seg_says(text, muted_style(), 35, text);
        lemma_says_in_six(view, queue, fast, effort, remote, branch, text);
    }
}

/// A context that fills up is on the line from seventy percent on, a quota from eighty,
/// and what changed in the files with both its counts.
pub proof fn law_use_is_on_the_line(s: StatusState)
    ensures
        s.context_percent >= 70 ==> says(usage_segs(s), "ctx "@ + decimal(s.context_percent as nat) + "%"@),
        s.diff.total_files > 0 ==> says(usage_segs(s), "+"@ + decimal(s.diff.additions as nat)) && says(
            usage_segs(s),
            "−"@ + decimal(s.diff.deletions as nat),
        ),
        s.quota matches Some(q) ==> quota_label(q) matches Some((label, pct)) ==> pct >= 80 ==> says(
            usage_segs(s),
            label,
        ),
{
    let diff = if s.diff.total_files > 0 {
        seq![(diff_spans(s.diff), 50u8)]
    } else {
        Seq::empty()
    };
    let text = "ctx "@ + decimal(s.context_percent as nat) + "%"@;
    let style = if s.context_percent >= 90 {
        Style::in_tone(Tone::Error)
    } else {
        Style::in_tone(Tone::Warning)
    };
    let context = seg_if(s.context_percent >= 70, text, style, 91);
    let quota = quota_segs(s.quota);
    let all = usage_segs(s);
    let back = all.skip((diff + context + quota).len() as int);
    assert(all =~= diff + context + quota + back);
    if s.context_percent >= 70 {
        lemma_has_itself(text);
        lemma_seg_says(text, style, 91, text);
        lemma_says_in_sum(diff, context, text);
        lemma_says_in_sum(diff + context, quota, text);
        lemma_says_in_sum(diff + context + quota, back, text);
    }
    if s.diff.total_files > 0 {
        let adds = "+"@ + decimal(s.diff.additions as nat);
        let dels = "−"@ + decimal(s.diff.deletions as nat);
        lemma_has_itself(adds);
        lemma_has_itself(dels);
        lemma_row_has(diff_spans(s.diff), 0, adds);
        lemma_row_has(diff_spans(s.diff), 2, dels);
        assert(all[0] == (diff_spans(s.diff), 50u8));
    }
    if s.quota is Some && quota_label(s.quota->0) is Some && (quota_label(s.quota->0)->0).1 >= 80 {
        let (label, pct) = quota_label(s.quota->0)->0;
        lemma_has_itself(label);
        let quota_style = if pct >= 95 {
            Style::in_tone(Tone::Error)
        } else {
            Style::in_tone(Tone::Warning)
        };
        lemma_seg_says(label, quota_style, 89, label);
        lemma_says_in_sum(diff + context, quota, label);
        lemma_says_in_sum(diff + context + quota, back, label);
    }
}

/// The quota tells of the window that is fuller.
pub proof fn law_fuller_window_is_told(q: QuotaSnapshot)
    ensures
        q.percent_5h is Some && q.percent_7d is Some ==> (quota_label(q) matches Some((label, pct)) && pct
            >= q.percent_5h->0 && pct >= q.percent_7d->0 && (pct == q.percent_5h->0 || pct == q.percent_7d->0)
            && has_text(label, decimal(pct as nat) + "%"@) && (q.percent_7d->0 > q.percent_5h->0
            ==> crate::slicing::has_prefix(label, "7d"@)) && (q.percent_7d->0 <= q.percent_5h->0
            ==> crate::slicing::has_prefix(label, "5h"@))),
        q.percent_5h is None && q.percent_7d is None ==> quota_label(q) is None,
        q.percent_5h is Some && q.percent_7d is None ==> (quota_label(q) matches Some((label, pct)) && pct
            == q.percent_5h->0),
        q.percent_5h is None && q.percent_7d is Some ==> (quota_label(q) matches Some((label, pct)) && pct
            == q.percent_7d->0),
{
    if pressed_window(q) is Some {
        let (window, pct) = pressed_window(q)->0;
        let n = decimal(pct as nat);
        let w = n + "%"@;
        let label = (quota_label(q)->0).0;
        let at: int = window.len() as int + " "@.len();
        assert(label.subrange(at, at + w.len()) =~= w);
        assert(crate::slicing::occurs_at(label, w, at));
        assert(label.subrange(0, window.len() as int) =~= window);
    }
}

proof fn lemma_joined_segs_has(
    segs: Seq<(Seq<(Seq<char>, Style)>, u8)>,
    keep: Seq<bool>,
    preceded: bool,
    k: int,
    w: Seq<char>,
)
    requires
        0 <= k < segs.len(),
        keep[k],
        has_text(row_text(segs[k].0), w),
    ensures
        has_text(row_text(joined_segs(segs, keep, preceded)), w),
    decreases segs.len(),
{
    let front = segs.drop_last();
    let before = joined_segs(front, keep, preceded);
    let sep = before.push((" · "@, muted_style()));
    if k < front.len() {
        lemma_joined_segs_has(front, keep, preceded, k, w);
    }
    assert(sep =~= before + seq![(" · "@, muted_style())]);
    lemma_row_text_adds(before, seq![(" · "@, muted_style())]);
    lemma_has_in_sum(row_text(before), row_text(seq![(" · "@, muted_style())]), w);
    lemma_row_text_adds(sep, segs.last().0);
    lemma_has_in_sum(row_text(sep), row_text(segs.last().0), w);
    lemma_row_text_adds(before, segs.last().0);
    lemma_has_in_sum(row_text(before), row_text(segs.last().0), w);
}

/// What a segment that stays says, the line says: no segment is lost or garbled on its
/// way to the screen.
pub proof fn law_kept_segments_are_shown(s: StatusState, width: u16, k: int, w: Seq<char>)
    requires
        0 <= k < all_segs(s).len(),
        seg_mask(all_segs(s), width)[k],
        has_text(row_text(all_segs(s)[k].0), w),
    ensures
        has_text(row_text(status_spans(s, width)), w),
{
    let voice = voice_spans(s);
    let segs = all_segs(s);
    let line = joined_segs(segs, seg_mask(segs, width), voice.len() > 0);
    lemma_joined_segs_has(segs, seg_mask(segs, width), voice.len() > 0, k, w);
    let head = seq![("  "@, Style::plain_style())] + voice;
    lemma_row_text_adds(head, line);
    lemma_has_in_sum(row_text(head), row_text(line), w);
}

/// While speech is recorded or transcribed, the line says so, however narrow it is.
pub proof fn law_recording_is_on_the_line(s: StatusState, width: u16)
    ensures
        s.voice_state == VoiceState::Recording ==> has_text(row_text(status_spans(s, width)), "recording"@),
        s.voice_state == VoiceState::Processing ==> has_text(row_text(status_spans(s, width)), "transcribing"@),
        s.voice_state == VoiceState::Idle && s.voice_interim is None ==> voice_spans(s).len() == 0,
{
    let row = status_spans(s, width);
    lemma_has_itself("recording"@);
    lemma_has_itself("transcribing"@);
    if s.voice_state == VoiceState::Recording {
        assert(row[1].0 == "recording"@);
        lemma_row_has(row, 1, "recording"@);
    }
    if s.voice_state == VoiceState::Processing {
        assert(row[1].0 == "transcribing"@);
        lemma_row_has(row, 1, "transcribing"@);
    }
}

/// A plan is named together with its seat; one that is not known keeps its name.
pub proof fn law_plans_are_named(plan: String, seat: String)
    ensures
        plan_label(Some(plan), Some(seat)) matches Some(l) && crate::slicing::has_suffix(l, seat@)
            && crate::slicing::has_prefix(l, plan_name(plan@)),
        plan_label(Some(plan), None) == Some(plan_name(plan@)),
        plan_label(None, Some(seat)) == Some(seat@),
        plan_name("max"@) == "Max"@,
        plan_name("pro"@) == "Pro"@,
        plan_name("team"@) == "Team"@,
        plan_name("enterprise"@) == "Enterprise"@,
        plan_name("free"@) == "Free"@,
        plan@ != "max"@ && plan@ != "pro"@ && plan@ != "team"@ && plan@ != "enterprise"@ && plan@ != "free"@
            ==> plan_name(plan@) == plan@,
{
    let l = plan_name(plan@) + "·"@ + seat@;
    assert(l.subrange(l.len() - seat@.len(), l.len() as int) =~= seat@);
    assert(l.subrange(0, plan_name(plan@).len() as int) =~= plan_name(plan@));
    reveal_strlit("max");
    reveal_strlit("pro");
    reveal_strlit("team");
    reveal_strlit("enterprise");
    reveal_strlit("free");
    assert("max"@[0] == 'm' && "pro"@[0] == 'p' && "team"@[0] == 't' && "enterprise"@[0] == 'e' && "free"@[0] == 'f');
}

/// The gauge tells what is used, what there is and the share of it.
pub proof fn law_gauge_tells_its_numbers(used: nat, max: nat, pct: nat)
    ensures
        has_text(gauge_label(used, max, pct), decimal(pct)),
        has_text(gauge_label(used, max, pct), " ctx "@ + decimal(used / 1000)),
        has_text(gauge_label(used, max, pct), decimal(max / 1000)),
{
    let a = " ctx "@ + decimal(used / 1000);
    let b = a + "k / "@;
    let c = b + decimal(max / 1000);
    let d = c + "k · "@;
    let e = d + decimal(pct);
    lemma_has_itself(a);
    lemma_has_in_sum(a, "k / "@, a);
    lemma_has_in_sum(b, decimal(max / 1000), a);
    lemma_has_in_sum(c, "k · "@, a);
    lemma_has_in_sum(c, "k · "@, decimal(max / 1000));
    lemma_has_in_sum(d, decimal(pct), a);
    lemma_has_in_sum(d, decimal(pct), decimal(max / 1000));
    lemma_has_in_sum(e, "% "@, a);
    lemma_has_in_sum(e, "% "@, decimal(max / 1000));
    lemma_has_in_sum(e, "% "@, decimal(pct));
}

/// What needs attention goes in a fixed order: where the line is too long, the servers
/// that are down go last, before them the service, and before that the approvals.
#[verifier::spinoff_prover]
pub proof fn law_problems_go_in_order(s: StatusState, i: int, j: int)
    ensures
        0 <= i < j < problem_segs(s).len() ==> problem_segs(s)[i].1 > problem_segs(s)[j].1,
        0 <= i < problem_segs(s).len() ==> problem_segs(s)[i].1 > 91,
{
    let down = down_names(s.mcp_servers@);
    let first = seg_if(
        down.len() > 0,
        "MCP issue: "@ + joined(down, ", "@) + " · /doctor"@,
        Style::in_tone(Tone::Error).made_bold(),
        98,
    );
    let service = match s.service_status {
        Some(status) => seg_if(status.degraded, status.short_badge@, alert_style(), 96),
        None => seg_if(s.service_status_failed, "status unreachable"@, Style::in_tone(Tone::Error), 96),
    };
    let last = seg_if(
        approvals(s) > 0,
        decimal(approvals(s)) + " awaiting approval"@,
        alert_style().made_bold(),
        94,
    );
    lemma_outranked(first, service, last, i, j);
    assert(problem_segs(s) == first + service + last);
}

/// Of three lists of at most one segment each, the ranks fall where they fall from list
/// to list.
proof fn lemma_outranked(
    a: Seq<(Seq<(Seq<char>, Style)>, u8)>,
    b: Seq<(Seq<(Seq<char>, Style)>, u8)>,
    c: Seq<(Seq<(Seq<char>, Style)>, u8)>,
    i: int,
    j: int,
)
    requires
        a.len() <= 1 && b.len() <= 1 && c.len() <= 1,
        a.len() == 1 ==> a[0].1 == 98,
        b.len() == 1 ==> b[0].1 == 96,
        c.len() == 1 ==> c[0].1 == 94,
    ensures
        0 <= i < j < (a + b + c).len() ==> (a + b + c)[i].1 > (a + b + c)[j].1,
        0 <= i < (a + b + c).len() ==> (a + b + c)[i].1 > 91,
{
}

} // verus!
