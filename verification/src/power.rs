//! Integer powers: how they grow with the base, and how to compute them.

use vstd::arithmetic::power::{lemma_pow0, lemma_pow_increases, pow};
use vstd::prelude::*;
use crate::wide::product_le;

verus! {

/// A power of a non-negative base does not shrink when the base grows.
pub proof fn lemma_pow_base_monotone(a: int, b: int, e: nat)
    requires
        0 <= a <= b,
    ensures
        0 <= pow(a, e) <= pow(b, e),
    decreases e,
{
    reveal(pow);
    if e > 0 {
        lemma_pow_base_monotone(a, b, (e - 1) as nat);
        let x = pow(a, (e - 1) as nat);
        let y = pow(b, (e - 1) as nat);
        assert(0 <= a * x <= b * y) by (nonlinear_arith)
            requires
                0 <= a <= b,
                0 <= x <= y,
        ;
    }
}

/// Every power of one is one.
pub proof fn lemma_pow_one(e: nat)
    ensures
        pow(1, e) == 1,
    decreases e,
{
    reveal(pow);
    if e > 0 {
        lemma_pow_one((e - 1) as nat);
    }
}

/// `base` to the power `exp`, for a result that fits in 128 bits.
pub fn raise(base: u128, exp: u32) -> (result: u128)
    requires
        pow(base as int, exp as nat) <= u128::MAX,
    ensures
        result == pow(base as int, exp as nat),
{
    let mut acc: u128 = 1;
    let mut done: u32 = 0;
    proof {
        lemma_pow0(base as int);
    }
    while done < exp
        invariant
            done <= exp,
            acc == pow(base as int, done as nat),
            pow(base as int, exp as nat) <= u128::MAX,
        decreases exp - done,
    {
        proof {
            reveal(pow);
            assert(pow(base as int, (done + 1) as nat) == base * pow(base as int, done as nat));
            if base > 0 {
                lemma_pow_increases(base as nat, (done + 1) as nat, exp as nat);
            } else {
                assert(base * pow(base as int, done as nat) == 0);
            }
            assert(acc * base == base * pow(base as int, done as nat)) by (nonlinear_arith)
                requires
                    acc == pow(base as int, done as nat),
            ;
        }
        acc = acc * base;
        done = done + 1;
    }
    acc
}

/// The product `(k^n * s1) * (k^n * s2)`: the quantity that a search over `k` compares
/// with a bound.
pub open spec fn weight(k: int, n: nat, s1: int, s2: int) -> int {
    (pow(k, n) * s1) * (pow(k, n) * s2)
}

/// The largest `k` in `0..=cap` whose weight is at most `bound`, or 0 when
/// there is none above 0.
pub open spec fn largest_within(cap: nat, n: nat, s1: int, s2: int, bound: int) -> nat
    decreases cap,
{
    if cap == 0 || weight(cap as int, n, s1, s2) <= bound {
        cap
    } else {
        largest_within((cap - 1) as nat, n, s1, s2, bound)
    }
}

/// The weight does not shrink when `k` grows.
pub proof fn lemma_weight_monotone(j: int, k: int, n: nat, s1: int, s2: int)
    requires
        0 <= j <= k,
        0 <= s1,
        0 <= s2,
    ensures
        0 <= weight(j, n, s1, s2) <= weight(k, n, s1, s2),
{
    lemma_pow_base_monotone(j, k, n);
    let x = pow(j, n);
    let y = pow(k, n);
    assert(0 <= (x * s1) * (x * s2) <= (y * s1) * (y * s2)) by (nonlinear_arith)
        requires
            0 <= x <= y,
            0 <= s1,
            0 <= s2,
    ;
}

/// What pins `largest_within` down: `k` is within the bound (or is 0), and the
/// next value, if there is one below or at the cap, is not.
pub proof fn lemma_largest_within_unique(
    cap: nat,
    n: nat,
    s1: int,
    s2: int,
    bound: int,
    k: nat,
)
    requires
        k <= cap,
        0 <= s1,
        0 <= s2,
        k == 0 || weight(k as int, n, s1, s2) <= bound,
        k == cap || weight(k as int + 1, n, s1, s2) > bound,
    ensures
        largest_within(cap, n, s1, s2, bound) == k,
    decreases cap,
{
    if cap > k {
        lemma_weight_monotone(k as int + 1, cap as int, n, s1, s2);
        lemma_largest_within_unique((cap - 1) as nat, n, s1, s2, bound, k);
    }
}

/// `largest_within` is at most the cap, is within the bound unless it is 0,
/// and everything above it up to the cap is beyond the bound.
pub proof fn lemma_largest_within_bounds(cap: nat, n: nat, s1: int, s2: int, bound: int)
    ensures
        largest_within(cap, n, s1, s2, bound) <= cap,
        largest_within(cap, n, s1, s2, bound) == 0 || weight(
            largest_within(cap, n, s1, s2, bound) as int,
            n,
            s1,
            s2,
        ) <= bound,
        forall|j: int|
            largest_within(cap, n, s1, s2, bound) < j <= cap ==> weight(j, n, s1, s2) > bound,
    decreases cap,
{
    if !(cap == 0 || weight(cap as int, n, s1, s2) <= bound) {
        lemma_largest_within_bounds((cap - 1) as nat, n, s1, s2, bound);
    }
}

/// Finds `largest_within(cap, n, s1, s2, left * right)` by bisection.
pub fn find_largest_within(cap: u32, n: u32, s1: u128, s2: u128, left: u128, right: u128) -> (k:
    u32)
    requires
        1 <= s1,
        1 <= s2,
        pow(cap as int, n as nat) * s1 <= u128::MAX,
        pow(cap as int, n as nat) * s2 <= u128::MAX,
    ensures
        k == largest_within(cap as nat, n as nat, s1 as int, s2 as int, left * right),
{
    let mut lo: u64 = 0;
    let mut hi: u64 = cap as u64 + 1;
    while hi - lo > 1
        invariant
            lo < hi <= cap + 1,
            1 <= s1,
            1 <= s2,
            pow(cap as int, n as nat) * s1 <= u128::MAX,
            pow(cap as int, n as nat) * s2 <= u128::MAX,
            lo == 0 || weight(lo as int, n as nat, s1 as int, s2 as int) <= left * right,
            hi == cap + 1 || weight(hi as int, n as nat, s1 as int, s2 as int) > left * right,
        decreases hi - lo,
    {
        let mid: u64 = lo + (hi - lo) / 2;
        proof {
            lemma_pow_base_monotone(mid as int, cap as int, n as nat);
            let p = pow(mid as int, n as nat);
            let q = pow(cap as int, n as nat);
            assert(p * s1 <= q * s1 && p * s2 <= q * s2 && p <= p * s1) by (nonlinear_arith)
                requires
                    0 <= p <= q,
                    1 <= s1,
                    1 <= s2,
            ;
        }
        let p: u128 = raise(mid as u128, n);
        if product_le(p * s1, p * s2, left, right) {
            lo = mid;
        } else {
            hi = mid;
        }
    }
    proof {
        lemma_largest_within_unique(
            cap as nat,
            n as nat,
            s1 as int,
            s2 as int,
            left * right,
            lo as nat,
        );
    }
    lo as u32
}

} // verus!
