//! Facts about floor and ceiling division used by the proofs.
use crate::fixed_point::{ceil_div, floor_div};
use vstd::arithmetic::div_mod::lemma_fundamental_div_mod;
use vstd::prelude::*;

verus! {

/// floor(a / b) brackets a from below: q * b <= a < q * b + b.
pub proof fn lemma_floor_div_bounds(a: int, b: int)
    requires
        b > 0,
    ensures
        floor_div(a, b) * b <= a,
        a < floor_div(a, b) * b + b,
{
    lemma_fundamental_div_mod(a, b);
    assert(0 <= a % b < b);
    assert(a == b * (a / b) + a % b);
    let q = a / b;
    assert(floor_div(a, b) == q);
    assert(q * b == b * q) by (nonlinear_arith);
}

/// ceil(a / b) brackets a from above: q * b - b < a <= q * b.
pub proof fn lemma_ceil_div_bounds(a: int, b: int)
    requires
        b > 0,
    ensures
        a <= ceil_div(a, b) * b,
        ceil_div(a, b) * b < a + b,
{
    lemma_floor_div_bounds(-a, b);
    let q = floor_div(-a, b);
    assert(ceil_div(a, b) == -q);
    assert((-q) * b == -(q * b)) by (nonlinear_arith);
}

/// The floor of a / b is at least c when c * b <= a.
pub proof fn lemma_floor_div_at_least(a: int, b: int, c: int)
    requires
        b > 0,
        c * b <= a,
    ensures
        floor_div(a, b) >= c,
{
    lemma_floor_div_bounds(a, b);
    let q = floor_div(a, b);
    assert(c * b < q * b + b);
    assert(c < q + 1) by (nonlinear_arith)
        requires
            c * b < q * b + b,
            b > 0,
    ;
}

/// The floor of a / b is at most c when a < (c + 1) * b.
pub proof fn lemma_floor_div_at_most(a: int, b: int, c: int)
    requires
        b > 0,
        a < (c + 1) * b,
    ensures
        floor_div(a, b) <= c,
{
    lemma_floor_div_bounds(a, b);
    let q = floor_div(a, b);
    assert(q * b < (c + 1) * b);
    assert(q < c + 1) by (nonlinear_arith)
        requires
            q * b < (c + 1) * b,
            b > 0,
    ;
}

/// The ceiling of a / b is at least c when c * b <= a.
pub proof fn lemma_ceil_div_at_least(a: int, b: int, c: int)
    requires
        b > 0,
        c * b <= a,
    ensures
        ceil_div(a, b) >= c,
{
    lemma_ceil_div_bounds(a, b);
    let q = ceil_div(a, b);
    assert(c * b <= q * b);
    assert(c <= q) by (nonlinear_arith)
        requires
            c * b <= q * b,
            b > 0,
    ;
}

/// Division of a non-negative number by a positive one is non-negative.
pub proof fn lemma_floor_div_nonneg(a: int, b: int)
    requires
        b > 0,
        a >= 0,
    ensures
        floor_div(a, b) >= 0,
{
    lemma_floor_div_at_least(a, b, 0);
}

} // verus!
