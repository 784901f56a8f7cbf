//! One-decimal notation of quotients.
//!
//! A count such as 1 450 tokens is shown as `1.4k`. The quotient is taken in
//! double precision before it is cut to one decimal, so which way a half goes
//! depends on the double next to it.
use vstd::arithmetic::power2::pow2;
use vstd::prelude::*;

use crate::doubles::{double_of, double_of_u64, doublings, nearest, nearest_u128, significand, significand_of};
use crate::text::push_decimal;

verus! {

/// The double nearest to `a / b`, in tenths rounded half to even.
pub open spec fn quotient_tenths(a: nat, b: nat) -> nat {
    nearest(10 * significand(a, b), pow2(doublings(a, b)))
}

/// The integer `n` divided by `b` in double precision, with one decimal.
pub open spec fn one_decimal(n: nat, b: nat) -> Seq<char> {
    let t = quotient_tenths(double_of(n), b);
    crate::text::decimal(t / 10) + "."@ + crate::text::decimal(t % 10)
}

/// Appends `n / b`, taken in double precision, with one decimal.
pub fn push_one_decimal(out: &mut String, n: u64, b: u64)
    requires
        0 < n,
        0 < b <= 1_000_000,
    ensures
        final(out)@ == old(out)@ + one_decimal(n as nat, b as nat),
{
    let (m, p) = significand_of(double_of_u64(n), b as u128);
    let t = nearest_u128(10 * m, p);
    push_decimal(out, t / 10);
    out.push_str(".");
    push_decimal(out, t % 10);
    assert(out@ =~= old(out)@ + one_decimal(n as nat, b as nat));
}

} // verus!
