//! Small arithmetic lemmas shared by the fixed-point modules.

use vstd::prelude::*;

use vstd::arithmetic::div_mod::{
    lemma_div_pos_is_pos, lemma_fundamental_div_mod_converse, lemma_mod_bound,
    lemma_multiply_divide_le, lemma_multiply_divide_lt,
};

verus! {

/// A nonnegative numerator divided by a positive divisor stays within the
/// bound given by a product bound on the numerator.
pub proof fn lemma_nonneg_div_le(a: int, d: int, k: int)
    requires
        0 <= a,
        0 < d,
        a <= d * k,
    ensures
        0 <= a / d <= k,
{
    lemma_div_pos_is_pos(a, d);
    lemma_multiply_divide_le(a, d, k);
}

/// Strict form: a numerator strictly below `d * k` gives a quotient
/// strictly below `k`.
pub proof fn lemma_nonneg_div_lt(a: int, d: int, k: int)
    requires
        0 <= a,
        0 < d,
        a < d * k,
    ensures
        0 <= a / d < k,
{
    lemma_div_pos_is_pos(a, d);
    lemma_multiply_divide_lt(a, d, k);
}

/// A product of two nonnegative bounded factors is nonnegative and bounded
/// by the product of the bounds.
pub proof fn lemma_mul_bounds(a: int, amax: int, b: int, bmax: int)
    requires
        0 <= a <= amax,
        0 <= b <= bmax,
    ensures
        0 <= a * b,
        a * b <= amax * bmax,
{
    assert(0 <= a * b && a * b <= amax * bmax) by (nonlinear_arith)
        requires
            0 <= a <= amax,
            0 <= b <= bmax,
    ;
}

/// Quotient and remainder determine division: if `x == d * q + r` with
/// `0 <= r < d`, then `x / d == q` and `x % d == r`.
pub proof fn lemma_div_mod_exact(x: int, d: int, q: int, r: int)
    requires
        0 < d,
        0 <= r < d,
        x == d * q + r,
    ensures
        x / d == q,
        x % d == r,
{
    vstd::arithmetic::mul::lemma_mul_is_commutative(d, q);
    lemma_fundamental_div_mod_converse(x, d, q, r);
}

/// Bounds of the Euclidean remainder.
pub proof fn lemma_mod_range(x: int, m: int)
    requires
        0 < m,
    ensures
        0 <= x % m < m,
{
    lemma_mod_bound(x, m);
}

} // verus!
