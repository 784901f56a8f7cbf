//! Reading unsigned decimal numbers.
use vstd::prelude::*;

use crate::text::chars_of;

verus! {

/// The character is one of the ten ASCII digits.
pub open spec fn is_digit(c: char) -> bool {
    '0' <= c <= '9'
}

/// The value of a run of digits.
pub open spec fn digits_value(s: Seq<char>) -> nat
    decreases s.len(),
{
    if s.len() == 0 {
        0
    } else {
        digits_value(s.drop_last()) * 10 + (s.last() as int - '0' as int) as nat
    }
}

/// The digits of a written number: behind the plus sign, where one leads.
pub open spec fn number_digits(s: Seq<char>) -> Seq<char> {
    if s.len() > 0 && s[0] == '+' {
        s.skip(1)
    } else {
        s
    }
}

/// The number written in `s`, if it is one and does not exceed `max`.
pub open spec fn number_in(s: Seq<char>, max: nat) -> Option<nat> {
    let d = number_digits(s);
    if d.len() > 0 && (forall|i: int| 0 <= i < d.len() ==> is_digit(#[trigger] d[i])) && digits_value(d)
        <= max {
        Some(digits_value(d))
    } else {
        None
    }
}

proof fn lemma_value_grows(s: Seq<char>, i: int)
    requires
        0 <= i <= s.len(),
        forall|j: int| 0 <= j < s.len() ==> is_digit(#[trigger] s[j]),
    ensures
        digits_value(s.take(i)) <= digits_value(s),
    decreases s.len() - i,
{
    if i < s.len() {
        assert(s.take(i + 1).drop_last() =~= s.take(i));
        assert(s.take(i + 1).last() == s[i]);
        lemma_value_grows(s, i + 1);
    } else {
        assert(s.take(i) =~= s);
    }
}

/// The number written in `s`: digits, with at most one plus sign in front, and
/// no more than `max`.
pub fn parse_number(s: &str, max: u64) -> (r: Option<u64>)
    ensures
        match r {
            Some(n) => number_in(s@, max as nat) == Some(n as nat),
            None => number_in(s@, max as nat) is None,
        },
{
    let cs = chars_of(s);
    let start: usize = if cs.len() > 0 && cs[0] == '+' {
        1
    } else {
        0
    };
    let ghost d = number_digits(s@);
    assert(d =~= cs@.skip(start as int));
    if start == cs.len() {
        return None;
    }
    let mut value: u128 = 0;
    let mut i: usize = start;
    assert(d.take(0) =~= Seq::<char>::empty());
    while i < cs.len()
        invariant
            start <= i <= cs@.len(),
            cs@ == s@,
            d == number_digits(s@),
            d == cs@.skip(start as int),
            forall|j: int| 0 <= j < i - start ==> is_digit(#[trigger] d[j]),
            value == digits_value(d.take(i - start)),
            value <= max,
        decreases cs@.len() - i,
    {
        let c: char = cs[i];
        assert(d[i - start] == c);
        if c < '0' || c > '9' {
            return None;
        }
        assert(d.take(i - start + 1).drop_last() =~= d.take(i - start));
        assert(d.take(i - start + 1).last() == c);
        let next: u128 = value * 10 + (c as u32 - '0' as u32) as u128;
        if next > max as u128 {
            proof {
                if forall|j: int| 0 <= j < d.len() ==> is_digit(#[trigger] d[j]) {
                    lemma_value_grows(d, i - start + 1);
                }
            }
            return None;
        }
        value = next;
        i += 1;
    }
    assert(d.take(d.len() as int) =~= d);
    Some(value as u64)
}

proof fn lemma_digits_value(n: nat)
    ensures
        digits_value(crate::text::decimal(n)) == n,
        crate::text::decimal(n).len() > 0,
        forall|i: int| 0 <= i < crate::text::decimal(n).len() ==> is_digit(#[trigger] crate::text::decimal(n)[i]),
    decreases n,
{
    let d = crate::text::decimal(n);
    crate::showing::lemma_decimal_is_digits(n);
    if n >= 10 {
        lemma_digits_value(n / 10);
        assert(d.drop_last() =~= crate::text::decimal(n / 10));
        assert(d.last() == crate::text::digit(n % 10));
    } else {
        assert(d =~= seq![crate::text::digit(n)]);
        assert(d.drop_last() =~= Seq::<char>::empty());
        assert(digits_value(d.drop_last()) == 0);
    }
}

/// A number that was written is read back, up to the bound, with or without a sign in
/// front of it.
pub proof fn law_written_numbers_are_read_back(n: nat, max: nat)
    ensures
        n <= max ==> number_in(crate::text::decimal(n), max) == Some(n),
        n <= max ==> number_in(seq!['+'] + crate::text::decimal(n), max) == Some(n),
        n > max ==> number_in(crate::text::decimal(n), max) is None,
{
    let d = crate::text::decimal(n);
    lemma_digits_value(n);
    assert(is_digit(d[0]));
    assert(number_digits(d) == d);
    let s = seq!['+'] + d;
    assert(s.skip(1) =~= d);
}

/// What holds anything but digits is no number, and neither is nothing.
pub proof fn law_only_digits_are_numbers(s: Seq<char>, max: nat, k: int)
    ensures
        0 < k < s.len() && !is_digit(s[k]) ==> number_in(s, max) is None,
        s.len() > 0 && !is_digit(s[0]) && s[0] != '+' ==> number_in(s, max) is None,
        s.len() == 0 ==> number_in(s, max) is None,
{
    let d = number_digits(s);
    if 0 < k < s.len() && !is_digit(s[k]) {
        if s[0] == '+' {
            assert(d[k - 1] == s[k]);
        } else {
            assert(d[k] == s[k]);
        }
    }
    if s.len() > 0 && !is_digit(s[0]) && s[0] != '+' {
        assert(d[0] == s[0]);
    }
}

} // verus!
