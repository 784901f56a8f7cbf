//! Double-precision arithmetic on counts.
//!
//! Some figures are taken in double precision before they are rounded or
//! compared, so which way a half goes, or whether two shares differ, depends on
//! the doubles next to them. Doubles are modelled here by integers: a double in
//! the range that matters is a 53-bit significand over a power of two.
use vstd::arithmetic::power2::{
    lemma2_to64, lemma2_to64_rest, lemma_pow2_adds, lemma_pow2_pos, lemma_pow2_strictly_increases, lemma_pow2_unfold,
    pow2,
};
use vstd::prelude::*;

verus! {

/// 2 to the power 52.
pub const TWO_52: u128 = 0x10_0000_0000_0000;

/// 2 to the power 53.
pub const TWO_53: u128 = 0x20_0000_0000_0000;

/// `a / b` rounded to the nearest integer, a half to the even one.
pub open spec fn nearest(a: nat, b: nat) -> nat {
    let q = a / b;
    let r = a % b;
    if 2 * r < b {
        q
    } else if 2 * r > b {
        q + 1
    } else if q % 2 == 0 {
        q
    } else {
        q + 1
    }
}

/// How often `n` must be halved to fit in 53 bits.
pub open spec fn halvings(n: nat) -> nat
    decreases n,
{
    if n < TWO_53 {
        0
    } else {
        1 + halvings(n / 2)
    }
}

/// The double nearest to the integer `n`.
pub open spec fn double_of(n: nat) -> nat {
    nearest(n, pow2(halvings(n))) * pow2(halvings(n))
}

/// How often `a` must be doubled until `a / b` has 53 significant bits before
/// the point.
pub open spec fn doublings(a: nat, b: nat) -> nat
    decreases (if a < TWO_52 * b { TWO_52 * b - a } else { 0 }),
{
    if a == 0 || a >= TWO_52 * b {
        0
    } else {
        1 + doublings(2 * a, b)
    }
}

/// The significand of the double nearest to `a / b`; its scale is
/// `2 ^ doublings(a, b)`.
pub open spec fn significand(a: nat, b: nat) -> nat {
    nearest(a * pow2(doublings(a, b)), b)
}

pub(crate) fn nearest_u128(a: u128, b: u128) -> (r: u128)
    requires
        0 < b < 0x8000_0000_0000_0000_0000_0000_0000_0000,
        a < 0x8000_0000_0000_0000_0000_0000_0000_0000,
    ensures
        r == nearest(a as nat, b as nat),
        r <= a / b + 1,
{
    let q = a / b;
    let rem = a % b;
    if 2 * rem < b {
        q
    } else if 2 * rem > b {
        q + 1
    } else if q % 2 == 0 {
        q
    } else {
        q + 1
    }
}

/// The double nearest to `n`, as an integer.
pub(crate) fn double_of_u64(n: u64) -> (r: u128)
    ensures
        r == double_of(n as nat),
        r <= 0x2_0000_0000_0000_0000,
        n > 0 ==> r > 0,
{
    let mut rest: u64 = n;
    let mut p: u128 = 1;
    let ghost mut k: nat = 0;
    proof {
        lemma2_to64();
    }
    while rest as u128 >= TWO_53
        invariant
            p == pow2(k),
            0 < p <= 4096,
            halvings(n as nat) == k + halvings(rest as nat),
            rest * p <= n,
            n > 0 && p > 1 ==> rest > 0,
            p == 1 ==> rest == n,
        decreases rest,
    {
        proof {
            lemma_pow2_unfold(k + 1);
            let h = rest / 2;
            assert(h * (2 * p) <= n) by (nonlinear_arith)
                requires
                    rest * p <= n,
                    2 * h <= rest,
                    p > 0,
            ;
            assert(p < 2048) by (nonlinear_arith)
                requires
                    rest * p <= n,
                    rest >= 0x20_0000_0000_0000,
                    n <= 0xffff_ffff_ffff_ffff,
                    p >= 0,
            ;
            k = k + 1;
        }
        rest = rest / 2;
        p = 2 * p;
    }
    let m = nearest_u128(n as u128, p);
    proof {
        assert((n as int / p as int) * p <= n) by (nonlinear_arith)
            requires
                p > 0,
                n >= 0,
        ;
        assert(m * p <= n + p) by (nonlinear_arith)
            requires
                m <= n as int / p as int + 1,
                (n as int / p as int) * p <= n,
                p > 0,
        ;
        if n > 0 {
            assert(n as int / p as int >= 1) by (nonlinear_arith)
                requires
                    p > 0,
                    rest * p <= n,
                    rest >= 1,
            ;
            assert(m * p > 0) by (nonlinear_arith)
                requires
                    m >= 1,
                    p > 0,
            ;
        }
    }
    m * p
}

/// The double nearest to `a / b`: a fraction over a power of two, or a whole
/// number where `a / b` has more than 53 bits before the point.
pub open spec fn quotient_double(a: nat, b: nat) -> (nat, nat) {
    if a >= TWO_53 * b {
        let h = halvings(a / b);
        (nearest(a, b * pow2(h)) * pow2(h), 1)
    } else {
        (significand(a, b), pow2(doublings(a, b)))
    }
}

/// A span of at least a second, in seconds: the double nearest to the sum of the
/// whole seconds and the double nearest to the rest. The sum is counted in units
/// in which the whole seconds have 53 bits; from `2 ^ 53` seconds on the rest is
/// lost.
pub open spec fn seconds_double(nanos: nat) -> (nat, nat) {
    let secs = nanos / 1_000_000_000;
    let rest = nanos % 1_000_000_000;
    if rest == 0 || secs >= TWO_53 {
        (double_of(secs), 1)
    } else {
        let k = doublings(rest, 1_000_000_000);
        let j = doublings(secs, 1);
        (
            nearest(secs * pow2(k) + significand(rest, 1_000_000_000), pow2((k - j) as nat)),
            pow2(j),
        )
    }
}

/// `a / b` in percent: the double nearest to a hundred times the double nearest
/// to `a / b`, and at most a hundred.
pub open spec fn percent_double(a: nat, b: nat) -> (nat, nat) {
    if a >= b {
        (100, 1)
    } else {
        (double_of(100 * significand(a, b)), pow2(doublings(a, b)))
    }
}

/// The double nearest to `a / b`, as a significand and its scale.
pub(crate) fn significand_of(a: u128, b: u128) -> (r: (u128, u128))
    requires
        0 < a < 0x100_0000_0000_0000_0000_0000_0000_0000,
        0 < b <= 0x4_0000_0000_0000_0000,
    ensures
        r.0 == significand(a as nat, b as nat),
        r.1 == pow2(doublings(a as nat, b as nat)),
        0 < r.1 <= 0x100_0000_0000_0000_0000_0000_0000_0000,
        r.0 <= a + TWO_53,
        a < TWO_53 * b ==> r.0 <= TWO_53,
        a * r.1 >= TWO_52 * b,
        r.1 == 1 || a * r.1 < TWO_53 * b,
{
    let mut x: u128 = a;
    let mut p: u128 = 1;
    let ghost mut s: nat = 0;
    proof {
        lemma2_to64();
        assert(TWO_52 * b <= TWO_52 * 0x4_0000_0000_0000_0000) by (nonlinear_arith)
            requires
                b <= 0x4_0000_0000_0000_0000,
        ;
    }
    let limit: u128 = TWO_52 * b;
    while x < limit
        invariant
            0 < a <= x,
            a < 0x100_0000_0000_0000_0000_0000_0000_0000,
            x == a * p,
            p == pow2(s),
            0 < p <= x,
            limit == TWO_52 * b,
            limit <= TWO_52 * 0x4_0000_0000_0000_0000,
            (x == a && p == 1) || x < 2 * limit,
            doublings(a as nat, b as nat) == s + doublings(x as nat, b as nat),
        decreases (if x < limit { limit - x } else { 0 }),
    {
        proof {
            lemma_pow2_unfold(s + 1);
            assert(2 * x == a * (2 * p)) by (nonlinear_arith)
                requires
                    x == a * p,
            ;
            s = s + 1;
        }
        x = 2 * x;
        p = 2 * p;
    }
    let m = nearest_u128(x, b);
    proof {
        assert(x as int / b as int <= x) by (nonlinear_arith)
            requires
                b > 0,
                x >= 0,
        ;
        if x < 2 * limit {
            lemma_nearest_below(x as nat, b as nat, TWO_53 as nat);
        }
    }
    (m, p)
}

proof fn lemma_nearest_below(a: nat, b: nat, n: nat)
    requires
        b > 0,
        a < n * b,
    ensures
        nearest(a, b) <= n,
{
    assert(a / b < n) by (nonlinear_arith)
        requires
            b > 0,
            a < n * b,
    ;
}

proof fn lemma_nearest_shifts(c: nat, f: nat, b: nat)
    requires
        b > 0,
    ensures
        (c * b + f) / b == c + f / b,
        (c * b + f) % b == f % b,
{
    vstd::arithmetic::div_mod::lemma_fundamental_div_mod(f as int, b as int);
    let (q, r) = (f / b, f % b);
    assert(c * b + f == b * (c + q) + r) by (nonlinear_arith)
        requires
            f == b * q + r,
    ;
    vstd::arithmetic::div_mod::lemma_fundamental_div_mod_converse(
        (c * b + f) as int,
        b as int,
        (c + q) as int,
        r as int,
    );
}

pub(crate) proof fn lemma_nothing_over(b: nat, d: nat)
    requires
        b > 0,
    ensures
        quotient_double(double_of(0) * d, b) == (0nat, 1nat),
{
    lemma2_to64();
    assert(double_of(0) == 0);
    assert(0 * d == 0) by (nonlinear_arith);
    assert(TWO_53 * b > 0) by (nonlinear_arith)
        requires
            b > 0,
    ;
    assert(nearest(0, b) == 0) by {
        assert(0nat / b == 0 && 0nat % b == 0) by (nonlinear_arith)
            requires
                b > 0,
        ;
    }
    assert(0 * pow2(0) == 0);
}

/// A span of at least a second, in seconds in double precision.
pub(crate) fn seconds_of(nanos: u128) -> (r: (u128, u128))
    requires
        1_000_000_000 <= nanos <= crate::time::MAX_NANOS,
    ensures
        r.0 == seconds_double(nanos as nat).0,
        r.1 == seconds_double(nanos as nat).1,
        0 < r.1 <= TWO_52,
        0 < r.0 <= 0x4_0000_0000_0000_0000,
{
    let secs: u64 = (nanos / 1_000_000_000) as u64;
    let rest: u128 = nanos % 1_000_000_000;
    if rest == 0 || secs as u128 >= TWO_53 {
        return (double_of_u64(secs), 1);
    }
    let (f, pk) = significand_of(rest, 1_000_000_000);
    let (c, pj) = significand_of(secs as u128, 1);
    let ghost k = doublings(rest as nat, 1_000_000_000);
    let ghost j = doublings(secs as nat, 1);
    proof {
        lemma2_to64();
        lemma2_to64_rest();
        assert(c == secs * pj) by {
            assert(nearest((secs * pow2(j)) as nat, 1) == secs * pow2(j));
        }
        assert(pj <= c) by (nonlinear_arith)
            requires
                c == secs * pj,
                secs >= 1,
                pj >= 0,
        ;
        assert(pk > TWO_52) by (nonlinear_arith)
            requires
                rest * pk >= TWO_52 * 1_000_000_000,
                0 < rest < 1_000_000_000,
                TWO_52 > 0,
        ;
        if k <= 52 {
            if k < 52 {
                lemma_pow2_strictly_increases(k, 52);
            }
            assert(pow2(52) == TWO_52);
            assert(false);
        }
        assert(pj < TWO_53);
        if j >= 53 {
            if j > 53 {
                lemma_pow2_strictly_increases(53, j);
            }
            assert(pow2(53) == TWO_53);
            assert(false);
        }
        if j < 52 {
            lemma_pow2_strictly_increases(j, 52);
        }
        lemma_pow2_adds(j, (k - j) as nat);
        lemma_pow2_pos((k - j) as nat);
    }
    let ghost unit = pow2((k - j) as nat);
    assert(pk as int / pj as int == unit) by (nonlinear_arith)
        requires
            pk == pj * unit,
            pj > 0,
    ;
    let b: u128 = pk / pj;
    let x: u128 = c + f / b;
    let r: u128 = f % b;
    proof {
        assert(secs * pk == c * b) by (nonlinear_arith)
            requires
                c == secs * pj,
                pk == pj * b,
        ;
        lemma_nearest_shifts(c as nat, f as nat, b as nat);
        assert(f / b <= f) by (nonlinear_arith)
            requires
                b > 0,
                f >= 0,
        ;
        assert(c <= TWO_53 + secs);
    }
    let n: u128 = if 2 * r < b {
        x
    } else if 2 * r > b {
        x + 1
    } else if x % 2 == 0 {
        x
    } else {
        x + 1
    };
    (n, pj)
}

/// The double nearest to `a / b`.
pub(crate) fn quotient_of(a: u128, b: u128) -> (r: (u128, u128))
    requires
        0 < a < 0x100_0000_0000_0000_0000_0000_0000_0000,
        0 < b <= 0x4_0000_0000_0000_0000,
    ensures
        r.0 == quotient_double(a as nat, b as nat).0,
        r.1 == quotient_double(a as nat, b as nat).1,
        0 < r.1 <= 0x100_0000_0000_0000_0000_0000_0000_0000,
        r.0 <= 0x400_0000_0000_0000_0000_0000_0000_0000,
{
    proof {
        assert(TWO_53 * b <= TWO_53 * 0x4_0000_0000_0000_0000) by (nonlinear_arith)
            requires
                b <= 0x4_0000_0000_0000_0000,
        ;
    }
    if a < TWO_53 * b {
        return significand_of(a, b);
    }
    let whole: u128 = a / b;
    let mut rest: u128 = whole;
    let mut p: u128 = 1;
    let ghost mut k: nat = 0;
    proof {
        lemma2_to64();
        assert(whole * b <= a) by (nonlinear_arith)
            requires
                whole == a as int / b as int,
                b > 0,
                a >= 0,
        ;
        assert(whole <= a) by (nonlinear_arith)
            requires
                whole * b <= a,
                b > 0,
        ;
    }
    while rest >= TWO_53
        invariant
            p == pow2(k),
            0 < p,
            p == 1 || p <= whole,
            rest * p <= whole,
            p == 1 ==> rest == whole,
            whole <= a < 0x100_0000_0000_0000_0000_0000_0000_0000,
            halvings(whole as nat) == k + halvings(rest as nat),
        decreases rest,
    {
        proof {
            lemma_pow2_unfold(k + 1);
            let h = rest / 2;
            assert(h * (2 * p) <= whole) by (nonlinear_arith)
                requires
                    rest * p <= whole,
                    2 * h <= rest,
                    p > 0,
            ;
            assert(2 * p <= whole) by (nonlinear_arith)
                requires
                    rest * p <= whole,
                    rest >= 2,
                    p > 0,
            ;
            k = k + 1;
        }
        rest = rest / 2;
        p = 2 * p;
    }
    proof {
        assert(b * p <= a) by (nonlinear_arith)
            requires
                whole * b <= a,
                p == 1 || p <= whole,
                0 < b <= a,
        ;
        assert(b * p > 0) by (nonlinear_arith)
            requires
                b > 0,
                p > 0,
        ;
    }
    let m = nearest_u128(a, b * p);
    proof {
        let q = a as int / (b * p) as int;
        assert(q * (b * p) <= a) by (nonlinear_arith)
            requires
                q == a as int / (b * p) as int,
                b * p > 0,
                a >= 0,
        ;
        assert(q * p <= a) by (nonlinear_arith)
            requires
                q * (b * p) <= a,
                b > 0,
                p > 0,
                q >= 0,
        ;
        assert(m * p <= q * p + p) by (nonlinear_arith)
            requires
                m <= q + 1,
                p > 0,
        ;
    }
    (m * p, 1)
}

/// `a / b` in percent, in double precision.
pub(crate) fn percent_of(a: u64, b: u64) -> (r: (u128, u128))
    requires
        b > 0,
    ensures
        r.0 == percent_double(double_of(a as nat), double_of(b as nat)).0,
        r.1 == percent_double(double_of(a as nat), double_of(b as nat)).1,
        0 < r.1 <= 0x100_0000_0000_0000_0000_0000_0000_0000,
        r.0 <= 0x4_0000_0000_0000_0000,
{
    let x = double_of_u64(a);
    let y = double_of_u64(b);
    if x >= y {
        return (100, 1);
    }
    if x == 0 {
        proof {
            lemma2_to64();
            assert(double_of(0) == 0);
        }
        return (0, 1);
    }
    proof {
        assert(x < TWO_53 * y) by (nonlinear_arith)
            requires
                x < y,
                TWO_53 >= 1,
        ;
    }
    let (m, p) = significand_of(x, y);
    (double_of_u64((100 * m) as u64), p)
}

} // verus!
