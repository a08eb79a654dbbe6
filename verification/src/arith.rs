//! Small facts about products of whole numbers, which the proofs of the
//! other modules are built from, and multiplication within known bounds.

use vstd::prelude::*;

verus! {

/// Regrouping a product of two products.
pub proof fn lemma_mul_pairs(a: int, b: int, c: int, d: int)
    by (nonlinear_arith)
    ensures
        (a * b) * (c * d) == (a * c) * (b * d),
{
}

/// A sum times a factor.
pub proof fn lemma_mul_sum(x: int, y: int, z: int)
    by (nonlinear_arith)
    ensures
        (x + y) * z == x * z + y * z,
{
}

/// A product does not depend on the order of its factors.
pub proof fn lemma_mul_flip(x: int, y: int)
    by (nonlinear_arith)
    ensures
        x * y == y * x,
{
}

/// A larger factor gives a larger product with a positive number.
pub proof fn lemma_mul_strict(k: int, x: int, y: int)
    by (nonlinear_arith)
    requires
        k > 0,
        x < y,
    ensures
        k * x < k * y,
{
}

/// The product of two bounded numbers is bounded by the product of the
/// bounds.
pub proof fn lemma_mul_bounds(a: int, b: int, la: int, lb: int)
    by (nonlinear_arith)
    requires
        -la <= a <= la,
        -lb <= b <= lb,
    ensures
        -(la * lb) <= a * b <= la * lb,
{
}

/// The product of two numbers within the given bounds.
pub(crate) fn mul_within(a: i128, b: i128, Ghost(la): Ghost<int>, Ghost(lb): Ghost<int>) -> (p:
    i128)
    requires
        -la <= a <= la,
        -lb <= b <= lb,
        la * lb <= i128::MAX,
    ensures
        p == a * b,
        -(la * lb) <= p <= la * lb,
{
    proof {
        lemma_mul_bounds(a as int, b as int, la, lb);
    }
    a * b
}

/// A factor times a difference.
pub proof fn lemma_mul_diff(x: int, a: int, b: int)
    by (nonlinear_arith)
    ensures
        x * (a - b) == x * a - x * b,
        (a - b) * x == x * a - x * b,
{
}

/// A factor times a sum of three.
pub proof fn lemma_mul_sum3(x: int, a: int, b: int, c: int)
    by (nonlinear_arith)
    ensures
        x * (a + b + c) == x * a + x * b + x * c,
        x * (a + b) == x * a + x * b,
{
}

/// Two products do not depend on the order of their factors.
pub proof fn lemma_mul_flip_pair(a: int, b: int, c: int, d: int)
    by (nonlinear_arith)
    ensures
        a * b == b * a,
        c * d == d * c,
{
}

} // verus!
