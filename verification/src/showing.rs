//! That something is shown: texts inside texts, and inside rows of styled spans.
use vstd::prelude::*;

use crate::slicing::{first_index, has_text, joined, lemma_first_index, occurs_at, pieces, trimmed, trimmed_end, trimmed_start};
use crate::styled::Style;
use crate::text::{decimal, digit, is_space};

verus! {

/// A text stands in itself.
pub proof fn lemma_has_itself(s: Seq<char>)
    ensures
        has_text(s, s),
{
    assert(s.subrange(0, s.len() as int) =~= s);
    assert(occurs_at(s, s, 0));
}

/// What stands in a piece stands in the whole.
pub proof fn lemma_has_in_sum(a: Seq<char>, b: Seq<char>, w: Seq<char>)
    ensures
        has_text(a, w) ==> has_text(a + b, w),
        has_text(b, w) ==> has_text(a + b, w),
        has_text(a + b, a),
        has_text(a + b, b),
{
    if has_text(a, w) {
        let i = choose|i: int| occurs_at(a, w, i);
        assert((a + b).subrange(i, i + w.len()) =~= a.subrange(i, i + w.len()));
        assert(occurs_at(a + b, w, i));
    }
    if has_text(b, w) {
        let i = choose|i: int| occurs_at(b, w, i);
        assert((a + b).subrange(a.len() + i, a.len() + i + w.len()) =~= b.subrange(i, i + w.len()));
        assert(occurs_at(a + b, w, a.len() + i));
    }
    assert((a + b).subrange(0, a.len() as int) =~= a);
    assert(occurs_at(a + b, a, 0));
    assert((a + b).subrange(a.len() as int, (a + b).len() as int) =~= b);
    assert(occurs_at(a + b, b, a.len() as int));
}

/// What stands in a text that stands in another stands there too.
pub proof fn lemma_has_trans(h: Seq<char>, m: Seq<char>, w: Seq<char>)
    requires
        has_text(h, m),
        has_text(m, w),
    ensures
        has_text(h, w),
{
    let i = choose|i: int| occurs_at(h, m, i);
    let k = choose|k: int| occurs_at(m, w, k);
    assert(h.subrange(i + k, i + k + w.len()) =~= h.subrange(i, i + m.len()).subrange(k, k + w.len()));
    assert(occurs_at(h, w, i + k));
}

/// Every part of a joined text stands in it.
pub proof fn lemma_joined_has(parts: Seq<Seq<char>>, sep: Seq<char>, i: int)
    requires
        0 <= i < parts.len(),
    ensures
        has_text(joined(parts, sep), parts[i]),
    decreases parts.len(),
{
    if parts.len() == 1 {
        lemma_has_itself(parts[0]);
    } else {
        let front = joined(parts.drop_last(), sep);
        if i < parts.len() - 1 {
            lemma_joined_has(parts.drop_last(), sep, i);
            lemma_has_in_sum(front, sep, parts[i]);
        }
        lemma_has_in_sum(front + sep, parts.last(), parts[i]);
    }
}

/// The text of a row.
pub open spec fn row_text(row: Seq<(Seq<char>, Style)>) -> Seq<char>
    decreases row.len(),
{
    if row.len() == 0 {
        Seq::empty()
    } else {
        row_text(row.drop_last()) + row.last().0
    }
}

/// The text stands in one of the rows.
pub open spec fn shows(rows: Seq<Seq<(Seq<char>, Style)>>, w: Seq<char>) -> bool {
    exists|i: int| 0 <= i < rows.len() && has_text(row_text(#[trigger] rows[i]), w)
}

/// What stands in a span stands in its row.
pub proof fn lemma_row_has(row: Seq<(Seq<char>, Style)>, i: int, w: Seq<char>)
    requires
        0 <= i < row.len(),
        has_text(row[i].0, w),
    ensures
        has_text(row_text(row), w),
    decreases row.len(),
{
    if i < row.len() - 1 {
        lemma_row_has(row.drop_last(), i, w);
    }
    lemma_has_in_sum(row_text(row.drop_last()), row.last().0, w);
}

/// The text of two rows, one after the other.
pub proof fn lemma_row_text_adds(a: Seq<(Seq<char>, Style)>, b: Seq<(Seq<char>, Style)>)
    ensures
        row_text(a + b) == row_text(a) + row_text(b),
    decreases b.len(),
{
    if b.len() == 0 {
        assert(a + b =~= a);
        assert(row_text(a) + row_text(b) =~= row_text(a));
    } else {
        lemma_row_text_adds(a, b.drop_last());
        assert((a + b).drop_last() =~= a + b.drop_last());
        assert((a + b).last() == b.last());
        assert(row_text(a + b) =~= row_text(a) + row_text(b));
    }
}

/// What some of the rows show, all of them show.
pub proof fn lemma_shows_in_sum(a: Seq<Seq<(Seq<char>, Style)>>, b: Seq<Seq<(Seq<char>, Style)>>, w: Seq<char>)
    ensures
        shows(a, w) ==> shows(a + b, w),
        shows(b, w) ==> shows(a + b, w),
{
    if shows(a, w) {
        let i = choose|i: int| 0 <= i < a.len() && has_text(row_text(#[trigger] a[i]), w);
        assert((a + b)[i] == a[i]);
    }
    if shows(b, w) {
        let i = choose|i: int| 0 <= i < b.len() && has_text(row_text(#[trigger] b[i]), w);
        assert((a + b)[a.len() + i] == b[i]);
    }
}

// ── numbers ─────────────────────────────────────────────────────────────

/// The number that decimal digits stand for.
pub open spec fn value_of(s: Seq<char>) -> nat
    decreases s.len(),
{
    if s.len() == 0 {
        0
    } else {
        10 * value_of(s.drop_last()) + (s.last() as nat - '0' as nat) as nat
    }
}

/// A number is written so that it reads back as itself.
pub proof fn law_decimal_reads_back(n: nat)
    ensures
        value_of(decimal(n)) == n,
        decimal(n).len() > 0,
    decreases n,
{
    if n >= 10 {
        law_decimal_reads_back(n / 10);
        assert(decimal(n).drop_last() =~= decimal(n / 10));
        assert(decimal(n).last() == digit(n % 10));
    } else {
        assert(decimal(n).drop_last() =~= Seq::empty());
        assert(decimal(n).last() == digit(n));
        assert(value_of(decimal(n).drop_last()) == 0);
    }
}

/// Two numbers are never written alike.
pub proof fn law_numbers_are_told_apart(a: nat, b: nat)
    requires
        decimal(a) == decimal(b),
    ensures
        a == b,
{
    law_decimal_reads_back(a);
    law_decimal_reads_back(b);
}

// ── trimming and splitting ──────────────────────────────────────────────

/// Every character is white space.
pub open spec fn is_blank(s: Seq<char>) -> bool {
    forall|i: int| 0 <= i < s.len() ==> is_space(#[trigger] s[i])
}

pub proof fn lemma_trimmed_end(s: Seq<char>)
    ensures
        trimmed_end(s).len() <= s.len(),
        s.take(trimmed_end(s).len() as int) == trimmed_end(s),
        is_blank(s.skip(trimmed_end(s).len() as int)),
        trimmed_end(s).len() > 0 ==> !is_space(trimmed_end(s).last()),
    decreases s.len(),
{
    if s.len() > 0 && is_space(s.last()) {
        lemma_trimmed_end(s.drop_last());
        let n = trimmed_end(s).len() as int;
        assert(s.take(n) =~= s.drop_last().take(n));
        assert forall|i: int| 0 <= i < s.skip(n).len() implies is_space(#[trigger] s.skip(n)[i]) by {
            if i < s.len() - n - 1 {
                assert(s.drop_last().skip(n)[i] == s.skip(n)[i]);
            }
        }
    } else {
        assert(s.take(s.len() as int) =~= s);
    }
}

pub proof fn lemma_trimmed_start(s: Seq<char>)
    ensures
        trimmed_start(s).len() <= s.len(),
        s.skip(s.len() - trimmed_start(s).len()) == trimmed_start(s),
        is_blank(s.take(s.len() - trimmed_start(s).len())),
        trimmed_start(s).len() > 0 ==> !is_space(trimmed_start(s)[0]),
    decreases s.len(),
{
    if s.len() > 0 && is_space(s[0]) {
        lemma_trimmed_start(s.skip(1));
        let n = s.len() - trimmed_start(s).len();
        assert(s.skip(n) =~= s.skip(1).skip(n - 1));
        assert forall|i: int| 0 <= i < s.take(n).len() implies is_space(#[trigger] s.take(n)[i]) by {
            if i > 0 {
                assert(s.skip(1).take(n - 1)[i - 1] == s.take(n)[i]);
            }
        }
    } else {
        assert(s.skip(0) =~= s);
    }
}

/// Trimming takes white space away at both ends, all of it and nothing else.
pub proof fn law_trimming_takes_only_space(s: Seq<char>)
    ensures
        exists|a: int, b: int|
            0 <= a <= b <= s.len() && #[trigger] s.subrange(a, b) == trimmed(s) && is_blank(s.take(a)) && is_blank(
                s.skip(b),
            ),
        trimmed(s).len() > 0 ==> !is_space(trimmed(s)[0]) && !is_space(trimmed(s).last()),
        has_text(s, trimmed(s)),
{
    lemma_trimmed_start(s);
    let t = trimmed_start(s);
    lemma_trimmed_end(t);
    let a = s.len() - t.len();
    let b = a + trimmed(s).len();
    assert(s.subrange(a, b) =~= t.take(trimmed(s).len() as int));
    assert forall|i: int| 0 <= i < s.skip(b).len() implies is_space(#[trigger] s.skip(b)[i]) by {
        assert(t.skip(trimmed(s).len() as int)[i] == s.skip(b)[i]);
    }
    assert(occurs_at(s, trimmed(s), a));
    if trimmed(s).len() > 0 {
        assert(trimmed(s)[0] == t[0]);
    }
}

proof fn lemma_first_index_is_first(s: Seq<char>, c: char, from: int, k: int)
    requires
        0 <= from <= k < first_index(s, c, from),
        k < s.len(),
    ensures
        s[k] != c,
    decreases s.len() - from,
{
    if k > from {
        lemma_first_index_is_first(s, c, from + 1, k);
    }
}

/// Splitting at a character and joining with it again changes nothing.
pub proof fn law_splitting_is_undone(s: Seq<char>, c: char, from: int)
    requires
        0 <= from <= s.len(),
    ensures
        joined(pieces(s, c, from), seq![c]) == s.skip(from),
        pieces(s, c, from).len() > 0,
        forall|i: int| 0 <= i < pieces(s, c, from).len() ==> !(#[trigger] pieces(s, c, from)[i]).contains(c),
    decreases s.len() - from,
{
    lemma_first_index(s, c, from);
    let end = first_index(s, c, from);
    let all = pieces(s, c, from);
    if 0 <= from <= end < s.len() {
        law_splitting_is_undone(s, c, end + 1);
        let rest = pieces(s, c, end + 1);
        lemma_joined_front(s.subrange(from, end), rest, seq![c]);
        assert(s.skip(from) =~= s.subrange(from, end) + seq![c] + s.skip(end + 1));
        assert forall|i: int| 0 <= i < all.len() implies !(#[trigger] all[i]).contains(c) by {
            if i == 0 {
                let p = s.subrange(from, end);
                if p.contains(c) {
                    let k = choose|k: int| 0 <= k < p.len() && p[k] == c;
                    lemma_first_index_is_first(s, c, from, from + k);
                }
            } else {
                assert(all[i] == rest[i - 1]);
            }
        }
    } else {
        assert(s.subrange(from, s.len() as int) =~= s.skip(from));
        let p = s.subrange(from, s.len() as int);
        if p.contains(c) {
            let k = choose|k: int| 0 <= k < p.len() && p[k] == c;
            lemma_first_index_is_first(s, c, from, from + k);
        }
    }
}

proof fn lemma_joined_front(first: Seq<char>, rest: Seq<Seq<char>>, sep: Seq<char>)
    requires
        rest.len() > 0,
    ensures
        joined(seq![first] + rest, sep) == first + sep + joined(rest, sep),
    decreases rest.len(),
{
    let all = seq![first] + rest;
    if rest.len() == 1 {
        assert(all.drop_last() =~= seq![first]);
        assert(joined(seq![first], sep) == first);
        assert(all.last() == rest[0]);
    } else {
        lemma_joined_front(first, rest.drop_last(), sep);
        assert(all.drop_last() =~= seq![first] + rest.drop_last());
        assert(joined(all, sep) =~= first + sep + joined(rest, sep));
    }
}

/// What stands in a text and neither begins nor ends with space stands in the trimmed
/// text.
pub proof fn lemma_trimmed_has(s: Seq<char>, w: Seq<char>)
    requires
        has_text(s, w),
        w.len() > 0,
        !is_space(w[0]),
        !is_space(w.last()),
    ensures
        has_text(trimmed(s), w),
{
    law_trimming_takes_only_space(s);
    let (a, b) = choose|a: int, b: int|
        0 <= a <= b <= s.len() && #[trigger] s.subrange(a, b) == trimmed(s) && is_blank(s.take(a)) && is_blank(
            s.skip(b),
        );
    let i = choose|i: int| occurs_at(s, w, i);
    assert(s.subrange(i, i + w.len())[0] == s[i]);
    assert(s.subrange(i, i + w.len())[w.len() - 1] == s[i + w.len() - 1]);
    if i < a {
        assert(is_space(s.take(a)[i]));
    }
    if i + w.len() > b {
        assert(is_space(s.skip(b)[i + w.len() - 1 - b]));
    }
    assert(trimmed(s).subrange(i - a, i - a + w.len()) =~= s.subrange(i, i + w.len()));
    assert(occurs_at(trimmed(s), w, i - a));
}

/// A number is written in digits.
pub proof fn lemma_decimal_is_digits(n: nat)
    ensures
        decimal(n).len() > 0,
        forall|i: int| 0 <= i < decimal(n).len() ==> '0' <= #[trigger] decimal(n)[i] <= '9',
    decreases n,
{
    if n >= 10 {
        lemma_decimal_is_digits(n / 10);
        assert forall|i: int| 0 <= i < decimal(n).len() implies '0' <= #[trigger] decimal(n)[i] <= '9' by {
            if i < decimal(n / 10).len() {
                assert(decimal(n)[i] == decimal(n / 10)[i]);
            }
        }
    }
}

/// Two neighbours among four pieces stand in the whole.
pub proof fn lemma_middle_has(a: Seq<char>, b: Seq<char>, c: Seq<char>, d: Seq<char>)
    ensures
        has_text(a + b + c + d, b + c),
{
    let all = a + b + c + d;
    let w = b + c;
    assert(all.subrange(a.len() as int, a.len() as int + w.len()) =~= w);
    assert(occurs_at(all, w, a.len() as int));
}

/// It does not matter how a sum of texts is bracketed.
pub proof fn lemma_sum_of_three(a: Seq<char>, b: Seq<char>, c: Seq<char>)
    ensures
        a + (b + c) == a + b + c,
{
    assert(a + (b + c) =~= a + b + c);
}

} // verus!
