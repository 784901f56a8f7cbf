//! Byte lengths of text in UTF-8, and cutting text at a byte length.
use vstd::prelude::*;

use crate::text::{chars_of, text_between};

verus! {

/// Bytes that a character takes in UTF-8.
pub open spec fn utf8_width(c: char) -> nat {
    let v = c as u32;
    if v < 0x80 {
        1
    } else if v < 0x800 {
        2
    } else if v < 0x10000 {
        3
    } else {
        4
    }
}

/// Bytes that a text takes in UTF-8.
pub open spec fn utf8_size(s: Seq<char>) -> nat
    decreases s.len(),
{
    if s.len() == 0 {
        0
    } else {
        utf8_size(s.drop_last()) + utf8_width(s.last())
    }
}

/// The longest prefix of `s`, from its first `n` characters, that takes no more
/// than `max` bytes.
pub open spec fn prefix_within(s: Seq<char>, n: nat, max: nat) -> Seq<char>
    decreases n,
{
    if n == 0 || utf8_size(s.take(n as int)) <= max {
        s.take(n as int)
    } else {
        prefix_within(s, (n - 1) as nat, max)
    }
}

/// `s` cut at the last character boundary at or below `max` bytes.
pub open spec fn cut_at_bytes(s: Seq<char>, max: nat) -> Seq<char> {
    prefix_within(s, s.len(), max)
}

fn char_bytes(c: char) -> (r: u64)
    ensures
        r == utf8_width(c),
{
    let v = c as u32;
    if v < 0x80 {
        1
    } else if v < 0x800 {
        2
    } else if v < 0x10000 {
        3
    } else {
        4
    }
}

proof fn lemma_size_of_prefix(s: Seq<char>, i: int, j: int)
    requires
        0 <= i <= j <= s.len(),
    ensures
        utf8_size(s.take(i)) <= utf8_size(s.take(j)),
        utf8_size(s.take(i)) <= 4 * i,
    decreases j,
{
    if j > 0 {
        assert(s.take(j).drop_last() =~= s.take(j - 1));
        if i < j {
            lemma_size_of_prefix(s, i, j - 1);
        } else {
            lemma_size_of_prefix(s, i - 1, j - 1);
        }
    }
}

proof fn lemma_prefix_within(s: Seq<char>, n: nat, k: nat, max: nat)
    requires
        k <= n <= s.len(),
        utf8_size(s.take(k as int)) <= max,
        k < n ==> utf8_size(s.take((k + 1) as int)) > max,
    ensures
        prefix_within(s, n, max) == s.take(k as int),
    decreases n,
{
    if k < n {
        lemma_size_of_prefix(s, (k + 1) as int, n as int);
        lemma_prefix_within(s, (n - 1) as nat, k, max);
    }
}

/// Bytes that `s` takes in UTF-8, counted up to `limit`: the size itself where
/// it is at most `limit`, and otherwise something above `limit`.
fn size_up_to(cs: &Vec<char>, limit: u64) -> (r: (usize, u64))
    requires
        limit < 0x1000_0000,
    ensures
        r.0 <= cs@.len(),
        r.1 == utf8_size(cs@.take(r.0 as int)),
        r.1 <= limit,
        r.0 < cs@.len() ==> utf8_size(cs@.take(r.0 + 1)) > limit,
{
    let mut i: usize = 0;
    let mut size: u64 = 0;
    while i < cs.len()
        invariant
            i <= cs@.len(),
            size == utf8_size(cs@.take(i as int)),
            size <= limit < 0x1000_0000,
        decreases cs@.len() - i,
    {
        let w = char_bytes(cs[i]);
        assert(cs@.take(i + 1).drop_last() =~= cs@.take(i as int));
        if size + w > limit {
            return (i, size);
        }
        size += w;
        i += 1;
    }
    (i, size)
}

/// Whether `s` takes more than `limit` bytes in UTF-8.
pub fn longer_than_bytes(s: &str, limit: u64) -> (r: bool)
    requires
        limit < 0x1000_0000,
    ensures
        r == (utf8_size(s@) > limit),
{
    let cs = chars_of(s);
    let fit = size_up_to(&cs, limit);
    assert(cs@.take(cs@.len() as int) =~= cs@);
    proof {
        if fit.0 < cs@.len() {
            lemma_size_of_prefix(cs@, fit.0 + 1, cs@.len() as int);
        }
    }
    fit.0 < cs.len()
}

/// The bytes that `s` takes in UTF-8, but no more than `limit`.
pub fn bytes_up_to(s: &str, limit: u64) -> (r: u64)
    requires
        limit < 0x1000_0000,
    ensures
        r == (if utf8_size(s@) > limit {
            limit as nat
        } else {
            utf8_size(s@)
        }),
{
    let cs = chars_of(s);
    let fit = size_up_to(&cs, limit);
    assert(cs@.take(cs@.len() as int) =~= cs@);
    proof {
        if fit.0 < cs@.len() {
            lemma_size_of_prefix(cs@, fit.0 + 1, cs@.len() as int);
        }
    }
    if fit.0 < cs.len() {
        limit
    } else {
        fit.1
    }
}

/// `s` cut at the last character boundary at or below `max` bytes.
pub fn cut_bytes(s: &str, max: u64) -> (r: String)
    requires
        max < 0x1000_0000,
    ensures
        r@ == cut_at_bytes(s@, max as nat),
{
    let cs = chars_of(s);
    let fit = size_up_to(&cs, max);
    proof {
        lemma_prefix_within(cs@, cs@.len(), fit.0 as nat, max as nat);
        assert(cs@.subrange(0, fit.0 as int) =~= cs@.take(fit.0 as int));
    }
    text_between(&cs, 0, fit.0)
}

/// A cut text is a prefix, fits, and could not be one character longer.
pub proof fn law_cut_is_longest_fitting_prefix(s: Seq<char>, max: nat)
    ensures
        ({
            let cut = cut_at_bytes(s, max);
            &&& cut.len() <= s.len()
            &&& cut == s.take(cut.len() as int)
            &&& utf8_size(cut) <= max
            &&& cut.len() < s.len() ==> utf8_size(s.take((cut.len() + 1) as int)) > max
        }),
{
    lemma_prefix_facts(s, s.len(), max);
}

proof fn lemma_prefix_facts(s: Seq<char>, n: nat, max: nat)
    requires
        n <= s.len(),
    ensures
        ({
            let cut = prefix_within(s, n, max);
            &&& cut.len() <= n
            &&& cut == s.take(cut.len() as int)
            &&& utf8_size(cut) <= max
            &&& cut.len() < n ==> utf8_size(s.take((cut.len() + 1) as int)) > max
        }),
    decreases n,
{
    if n > 0 && utf8_size(s.take(n as int)) > max {
        lemma_prefix_facts(s, (n - 1) as nat, max);
    } else {
        assert(s.take(n as int).len() == n);
    }
}

} // verus!
