//! Comparing fractions without multiplying them out.
use vstd::prelude::*;

verus! {

/// `a / b < c / d`.
pub open spec fn fraction_below(a: nat, b: nat, c: nat, d: nat) -> bool {
    a * d < c * b
}

proof fn lemma_by_quotients(a: nat, b: nat, c: nat, d: nat)
    requires
        b > 0,
        d > 0,
    ensures
        a / b < c / d ==> fraction_below(a, b, c, d),
        a / b > c / d ==> !fraction_below(a, b, c, d),
        a / b == c / d ==> (fraction_below(a, b, c, d) <==> fraction_below(a % b, b, c % d, d)),
{
    let (q, r) = (a / b, a % b);
    let (p, s) = (c / d, c % d);
    assert(a == b * q + r && r < b) by {
        vstd::arithmetic::div_mod::lemma_fundamental_div_mod(a as int, b as int);
    }
    assert(c == d * p + s && s < d) by {
        vstd::arithmetic::div_mod::lemma_fundamental_div_mod(c as int, d as int);
    }
    assert(a * d == b * d * q + r * d) by (nonlinear_arith)
        requires
            a == b * q + r,
    ;
    assert(c * b == b * d * p + s * b) by (nonlinear_arith)
        requires
            c == d * p + s,
    ;
    assert(r * d < b * d) by (nonlinear_arith)
        requires
            r < b,
            d > 0,
    ;
    assert(s * b < b * d) by (nonlinear_arith)
        requires
            s < d,
            b > 0,
    ;
    if q < p {
        assert(b * d * q + b * d <= b * d * p) by (nonlinear_arith)
            requires
                q + 1 <= p,
                b > 0,
                d > 0,
        ;
        assert(s * b >= 0) by (nonlinear_arith);
    } else if q > p {
        assert(b * d * p + b * d <= b * d * q) by (nonlinear_arith)
            requires
                p + 1 <= q,
                b > 0,
                d > 0,
        ;
        assert(r * d >= 0) by (nonlinear_arith);
    }
}

/// Whether `a / b < c / d`, without a product that could overflow: the whole
/// parts decide, or the fractions that are left, turned over.
pub fn fraction_is_below(a: u128, b: u128, c: u128, d: u128) -> (r: bool)
    requires
        b > 0,
        d > 0,
    ensures
        r == fraction_below(a as nat, b as nat, c as nat, d as nat),
    decreases b + d,
{
    let q: u128 = a / b;
    let p: u128 = c / d;
    proof {
        lemma_by_quotients(a as nat, b as nat, c as nat, d as nat);
    }
    if q != p {
        return q < p;
    }
    let x: u128 = a % b;
    let y: u128 = c % d;
    if y == 0 {
        assert(!fraction_below(x as nat, b as nat, y as nat, d as nat)) by (nonlinear_arith)
            requires
                y == 0,
        ;
        return false;
    }
    if x == 0 {
        assert(fraction_below(x as nat, b as nat, y as nat, d as nat)) by (nonlinear_arith)
            requires
                x == 0,
                y > 0,
                b > 0,
        ;
        return true;
    }
    assert(fraction_below(x as nat, b as nat, y as nat, d as nat) == fraction_below(
        d as nat,
        y as nat,
        b as nat,
        x as nat,
    )) by (nonlinear_arith);
    fraction_is_below(d, y, b, x)
}

} // verus!
