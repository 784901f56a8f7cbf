//! Stable sorting, and the order of text.
use vstd::prelude::*;

use crate::text::chars_of;

verus! {

/// A kind of item that stands before some others in a list.
pub trait Ranked: Sized {
    /// This item belongs before `other`.
    spec fn before(&self, other: &Self) -> bool;

    fn is_before(&self, other: &Self) -> (r: bool)
        ensures
            r == self.before(other),
    ;
}

/// The order of a kind of item.
pub open spec fn rank_order<T: Ranked>() -> spec_fn(T, T) -> bool {
    |a: T, b: T| a.before(&b)
}

/// `x` put into `s`: in front of the items at the end that it belongs before.
pub open spec fn placed<A>(s: Seq<A>, x: A, before: spec_fn(A, A) -> bool) -> Seq<A>
    decreases s.len(),
{
    if s.len() == 0 || !before(x, s.last()) {
        s.push(x)
    } else {
        placed(s.drop_last(), x, before).push(s.last())
    }
}

/// The items of `s`, one after the other put in their place. Items of which
/// neither belongs before the other keep their order.
pub open spec fn sorted<A>(s: Seq<A>, before: spec_fn(A, A) -> bool) -> Seq<A>
    decreases s.len(),
{
    if s.len() == 0 {
        s
    } else {
        placed(sorted(s.drop_last(), before), s.last(), before)
    }
}

proof fn lemma_placed_len<A>(s: Seq<A>, x: A, before: spec_fn(A, A) -> bool)
    ensures
        placed(s, x, before).len() == s.len() + 1,
        placed(s, x, before).to_multiset() == s.to_multiset().insert(x),
    decreases s.len(),
{
    broadcast use vstd::seq_lib::group_to_multiset_ensures;

    if s.len() > 0 && before(x, s.last()) {
        lemma_placed_len(s.drop_last(), x, before);
        assert(s =~= s.drop_last().push(s.last()));
        assert(placed(s, x, before).to_multiset() =~= s.to_multiset().insert(x));
    }
}

/// Sorting only reorders: nothing is lost, added or changed.
pub proof fn law_sorted_is_a_permutation<A>(s: Seq<A>, before: spec_fn(A, A) -> bool)
    ensures
        sorted(s, before).to_multiset() == s.to_multiset(),
        sorted(s, before).len() == s.len(),
    decreases s.len(),
{
    broadcast use vstd::seq_lib::group_to_multiset_ensures;

    if s.len() > 0 {
        law_sorted_is_a_permutation(s.drop_last(), before);
        lemma_placed_len(sorted(s.drop_last(), before), s.last(), before);
        assert(s =~= s.drop_last().push(s.last()));
    }
}

/// `before` is a strict order whose ties form classes.
pub open spec fn is_weak_order<A>(before: spec_fn(A, A) -> bool) -> bool {
    &&& forall|a: A, b: A| #[trigger] before(a, b) ==> !before(b, a)
    &&& forall|a: A, b: A, c: A|
        #![trigger before(a, b), before(b, c)]
        !before(a, b) && !before(b, c) ==> !before(a, c)
}

/// No item of `s` belongs before an earlier one.
pub open spec fn in_order<A>(s: Seq<A>, before: spec_fn(A, A) -> bool) -> bool {
    forall|i: int, j: int| #![trigger s[i], s[j]] 0 <= i < j < s.len() ==> !before(s[j], s[i])
}

proof fn lemma_placed_in_order<A>(s: Seq<A>, x: A, before: spec_fn(A, A) -> bool)
    requires
        is_weak_order(before),
        in_order(s, before),
    ensures
        in_order(placed(s, x, before), before),
        forall|i: int|
            0 <= i < placed(s, x, before).len() ==> #[trigger] placed(s, x, before)[i] == x
                || s.contains(placed(s, x, before)[i]),
    decreases s.len(),
{
    if s.len() == 0 || !before(x, s.last()) {
        let p = s.push(x);
        assert forall|i: int, j: int|
            #![trigger p[i], p[j]]
            0 <= i < j < p.len() implies !before(p[j], p[i]) by {
            if j == s.len() {
                if i < s.len() - 1 {
                    let l = s.last();
                    assert(!before(l, s[i]));
                    assert(!before(x, l));
                }
            }
        }
        assert forall|i: int| 0 <= i < p.len() implies #[trigger] p[i] == x || s.contains(p[i]) by {
            if i < s.len() {
                assert(s[i] == p[i]);
            }
        }
    } else {
        let front = s.drop_last();
        lemma_placed_in_order(front, x, before);
        let q = placed(front, x, before);
        let p = q.push(s.last());
        assert forall|i: int, j: int|
            #![trigger p[i], p[j]]
            0 <= i < j < p.len() implies !before(p[j], p[i]) by {
            if j == q.len() {
                if q[i] == x {
                } else {
                    let k = choose|k: int| 0 <= k < front.len() && front[k] == q[i];
                    assert(s[k] == q[i]);
                    assert(!before(s[s.len() - 1], s[k]));
                }
            }
        }
        assert forall|i: int| 0 <= i < p.len() implies #[trigger] p[i] == x || s.contains(p[i]) by {
            if i < q.len() {
                if q[i] != x {
                    let k = choose|k: int| 0 <= k < front.len() && front[k] == q[i];
                    assert(s[k] == q[i]);
                }
            } else {
                assert(s[s.len() - 1] == p[i]);
            }
        }
    }
}

/// A sorted list is in order.
pub proof fn law_sorted_is_in_order<A>(s: Seq<A>, before: spec_fn(A, A) -> bool)
    requires
        is_weak_order(before),
    ensures
        in_order(sorted(s, before), before),
    decreases s.len(),
{
    if s.len() > 0 {
        law_sorted_is_in_order(s.drop_last(), before);
        lemma_placed_in_order(sorted(s.drop_last(), before), s.last(), before);
    }
}

proof fn lemma_placed_map<A, B>(
    s: Seq<A>,
    x: A,
    f: spec_fn(A) -> B,
    before_a: spec_fn(A, A) -> bool,
    before_b: spec_fn(B, B) -> bool,
)
    requires
        forall|a: A, b: A| #[trigger] before_a(a, b) == before_b(f(a), f(b)),
    ensures
        placed(s, x, before_a).map_values(f) == placed(s.map_values(f), f(x), before_b),
    decreases s.len(),
{
    if s.len() == 0 || !before_a(x, s.last()) {
        assert(s.push(x).map_values(f) =~= s.map_values(f).push(f(x)));
        if s.len() > 0 {
            assert(s.map_values(f).last() == f(s.last()));
        }
    } else {
        lemma_placed_map(s.drop_last(), x, f, before_a, before_b);
        assert(s.drop_last().map_values(f) =~= s.map_values(f).drop_last());
        assert(s.map_values(f).last() == f(s.last()));
        let q = placed(s.drop_last(), x, before_a);
        assert(q.push(s.last()).map_values(f) =~= q.map_values(f).push(f(s.last())));
    }
}

/// Sorting looks at nothing but the order: seen through `f`, a sorted list is
/// the sorted list of what `f` shows, where the two orders agree.
pub proof fn lemma_sorted_map<A, B>(
    s: Seq<A>,
    f: spec_fn(A) -> B,
    before_a: spec_fn(A, A) -> bool,
    before_b: spec_fn(B, B) -> bool,
)
    requires
        forall|a: A, b: A| #[trigger] before_a(a, b) == before_b(f(a), f(b)),
    ensures
        sorted(s, before_a).map_values(f) == sorted(s.map_values(f), before_b),
    decreases s.len(),
{
    if s.len() == 0 {
        assert(s.map_values(f) =~= Seq::<B>::empty());
    } else {
        lemma_sorted_map(s.drop_last(), f, before_a, before_b);
        lemma_placed_map(sorted(s.drop_last(), before_a), s.last(), f, before_a, before_b);
        assert(s.drop_last().map_values(f) =~= s.map_values(f).drop_last());
        assert(s.map_values(f).last() == f(s.last()));
    }
}

/// Sort stably.
pub fn sort_stable<T: Ranked>(items: Vec<T>) -> (r: Vec<T>)
    ensures
        r@ == sorted(items@, rank_order::<T>()),
{
    let mut left = items;
    let mut rest: Vec<T> = Vec::new();
    // `rest` takes the items in reverse, so that they come back in order.
    let ghost all = items@;
    while left.len() > 0
        invariant
            all == left@ + rest@.reverse(),
        decreases left@.len(),
    {
        let ghost l0 = left@;
        let ghost r0 = rest@;
        let x = left.pop();
        match x {
            Some(x) => {
                rest.push(x);
                assert(rest@.reverse() =~= seq![x] + r0.reverse());
                assert(l0 =~= left@.push(x));
                assert(left@ + rest@.reverse() =~= l0 + r0.reverse());
            },
            None => {},
        }
    }
    assert(all =~= rest@.reverse());
    let mut out: Vec<T> = Vec::new();
    assert(all.take(0) =~= Seq::<T>::empty());
    while rest.len() > 0
        invariant
            rest@.len() <= all.len(),
            rest@.reverse() == all.skip(all.len() - rest@.len()),
            out@ == sorted(all.take(all.len() - rest@.len()), rank_order::<T>()),
        decreases rest@.len(),
    {
        let ghost done = (all.len() - rest@.len()) as int;
        let ghost r0 = rest@;
        let x = rest.pop();
        match x {
            Some(x) => {
                proof {
                    assert(r0.reverse()[0] == x);
                    assert(all.skip(done)[0] == all[done]);
                    assert(all.take(done + 1).drop_last() =~= all.take(done));
                    assert(rest@.reverse() =~= r0.reverse().skip(1));
                    assert(all.skip(done).skip(1) =~= all.skip(done + 1));
                }
                place(&mut out, x);
            },
            None => {},
        }
    }
    assert(all.take(all.len() as int) =~= all);
    out
}

fn place<T: Ranked>(out: &mut Vec<T>, x: T)
    ensures
        final(out)@ == placed(old(out)@, x, rank_order::<T>()),
{
    let mut i: usize = out.len();
    let ghost s = out@;
    let ghost order = rank_order::<T>();
    assert(s.take(s.len() as int) =~= s);
    assert(placed(s, x, order) =~= placed(s.take(i as int), x, order) + s.skip(i as int));
    while i > 0 && x.is_before(&out[i - 1])
        invariant
            i <= out@.len(),
            out@ == s,
            order == rank_order::<T>(),
            placed(s, x, order) == placed(s.take(i as int), x, order) + s.skip(i as int),
        decreases i,
    {
        assert(s.take(i as int).drop_last() =~= s.take(i - 1));
        assert(s.take(i as int).last() == s[i - 1]);
        assert(placed(s.take(i - 1), x, order).push(s[i - 1]) + s.skip(i as int) =~= placed(
            s.take(i - 1),
            x,
            order,
        ) + s.skip(i - 1));
        i -= 1;
    }
    assert(i > 0 ==> s.take(i as int).last() == s[i - 1]);
    out.insert(i, x);
    assert(out@ =~= s.take(i as int).push(x) + s.skip(i as int));
}

// ── order of text ───────────────────────────────────────────────────────

/// `a` stands before `b` in the order of code points.
pub open spec fn text_before(a: Seq<char>, b: Seq<char>) -> bool
    decreases a.len(),
{
    if b.len() == 0 {
        false
    } else if a.len() == 0 {
        true
    } else if a[0] != b[0] {
        (a[0] as int) < (b[0] as int)
    } else {
        text_before(a.skip(1), b.skip(1))
    }
}

/// Whether `a` stands before `b` in the order of code points.
pub fn text_is_before(a: &str, b: &str) -> (r: bool)
    ensures
        r == text_before(a@, b@),
{
    let x = chars_of(a);
    let y = chars_of(b);
    let mut i: usize = 0;
    assert(x@.skip(0) =~= x@);
    assert(y@.skip(0) =~= y@);
    while i < x.len() && i < y.len() && x[i] == y[i]
        invariant
            x@ == a@,
            y@ == b@,
            i <= x@.len(),
            i <= y@.len(),
            text_before(a@, b@) == text_before(x@.skip(i as int), y@.skip(i as int)),
        decreases x@.len() - i,
    {
        assert(x@.skip(i as int).skip(1) =~= x@.skip(i + 1));
        assert(y@.skip(i as int).skip(1) =~= y@.skip(i + 1));
        i += 1;
    }
    if i >= y.len() {
        return false;
    }
    if i >= x.len() {
        return true;
    }
    assert(x@.skip(i as int)[0] == x@[i as int]);
    assert(y@.skip(i as int)[0] == y@[i as int]);
    let p: char = x[i];
    let q: char = y[i];
    p < q
}

/// Texts are ordered strictly and totally: of two different texts exactly one
/// stands before the other, and what stands before is transitive.
pub proof fn law_text_order(a: Seq<char>, b: Seq<char>, c: Seq<char>)
    ensures
        !text_before(a, a),
        a != b ==> (text_before(a, b) <==> !text_before(b, a)),
        text_before(a, b) && text_before(b, c) ==> text_before(a, c),
    decreases a.len() + b.len() + c.len(),
{
    if a.len() > 0 {
        law_text_order(a.skip(1), Seq::empty(), Seq::empty());
    }
    if a.len() > 0 && b.len() > 0 {
        if a[0] == b[0] {
            law_text_order(a.skip(1), b.skip(1), Seq::empty());
            if a.skip(1) == b.skip(1) {
                assert(a =~= seq![a[0]] + a.skip(1));
                assert(b =~= seq![b[0]] + b.skip(1));
            }
        }
        if c.len() > 0 {
            law_text_order(a.skip(1), b.skip(1), c.skip(1));
        }
    } else if a.len() == 0 && b.len() == 0 {
        assert(a =~= b);
    }
}

} // verus!
