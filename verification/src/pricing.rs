//! Division rounded up, the rounding rule of the constant-product price.

use vstd::prelude::*;

verus! {

/// `n / d` rounded up to the next integer.
pub open spec fn ceil_div(n: nat, d: nat) -> nat
    recommends
        d > 0,
{
    if n % d == 0 {
        n / d
    } else {
        n / d + 1
    }
}

/// Rounding up never loses anything: `ceil_div(n, d)` copies of `d` cover `n`.
pub proof fn lemma_ceil_div_covers(n: nat, d: nat)
    requires
        d > 0,
    ensures
        ceil_div(n, d) * d >= n,
{
    let c = ceil_div(n, d);
    assert(n == d * (n / d) + n % d && 0 <= n % d < d) by {
        vstd::arithmetic::div_mod::lemma_fundamental_div_mod(n as int, d as int);
        vstd::arithmetic::div_mod::lemma_mod_bound(n as int, d as int);
    }
    assert(c * d >= n) by (nonlinear_arith)
        requires
            n == d * (n / d) + n % d,
            0 <= n % d < d,
            c == (if n % d == 0 { n / d } else { n / d + 1 }),
    ;
}

/// Rounding up adds no more than needed: any `q` whose `q` copies of `d`
/// cover `n` is at least `ceil_div(n, d)`.
pub proof fn lemma_ceil_div_is_least(n: nat, d: nat, q: nat)
    requires
        d > 0,
        q * d >= n,
    ensures
        ceil_div(n, d) <= q,
{
    let c = ceil_div(n, d);
    assert(n == d * (n / d) + n % d && 0 <= n % d < d) by {
        vstd::arithmetic::div_mod::lemma_fundamental_div_mod(n as int, d as int);
        vstd::arithmetic::div_mod::lemma_mod_bound(n as int, d as int);
    }
    assert(c <= q) by (nonlinear_arith)
        requires
            q * d >= n,
            d > 0,
            n == d * (n / d) + n % d,
            0 <= n % d < d,
            c == (if n % d == 0 { n / d } else { n / d + 1 }),
    ;
}

/// A product divided by one of its positive factors gives the other, with
/// nothing to round.
pub proof fn lemma_ceil_div_of_product(q: nat, d: nat)
    requires
        d > 0,
    ensures
        ceil_div(q * d, d) == q,
{
    lemma_ceil_div_covers(q * d, d);
    lemma_ceil_div_is_least(q * d, d, q);
    let c = ceil_div(q * d, d);
    assert(c >= q) by (nonlinear_arith)
        requires
            c * d >= q * d,
            d > 0,
    ;
}

/// Divides `numerator` by `denominator` and rounds up.
pub fn u64_division_ceil(numerator: u64, denominator: u64) -> (r: u64)
    requires
        denominator > 0,
    ensures
        r == ceil_div(numerator as nat, denominator as nat),
{
    let quotient: u64 = numerator / denominator;
    if numerator % denominator > 0 {
        proof {
            assert(quotient < u64::MAX) by (nonlinear_arith)
                requires
                    quotient == numerator as int / denominator as int,
                    numerator as int % denominator as int > 0,
                    denominator > 0,
                    numerator <= u64::MAX,
            ;
        }
        quotient + 1
    } else {
        quotient
    }
}

} // verus!
