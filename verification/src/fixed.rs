//! Fixed-point division, rounding toward zero.
//!
//! The escape-time iteration divides each squared or cross term by the
//! scaling factor before use.  Executable Rust division on signed integers
//! rounds toward zero, while `/` on `int` in specifications is Euclidean;
//! [`tdiv`] is the specification of the truncating quotient, and
//! [`div_trunc`] the verified executable form, written over unsigned
//! magnitudes so that the two notions coincide where they are used.

use vstd::arithmetic::div_mod::{
    lemma_div_is_ordered, lemma_div_multiples_vanish, lemma_div_nonincreasing,
    lemma_div_of0, lemma_div_pos_is_pos,
};
use vstd::prelude::*;

verus! {

/// Quotient of `a` by `d`, rounded toward zero; meaningful for `d > 0`.
pub open spec fn tdiv(a: int, d: int) -> int {
    if a >= 0 {
        a / d
    } else {
        -((-a) / d)
    }
}

/// Rounding toward zero commutes with negation of the dividend.
pub proof fn lemma_tdiv_neg(a: int, d: int)
    requires
        0 < d,
    ensures
        tdiv(-a, d) == -tdiv(a, d),
{
    if a == 0 {
        lemma_div_of0(d);
    }
}

/// Division by one is the identity, whatever the sign of the dividend.
pub proof fn lemma_tdiv_one(a: int)
    ensures
        tdiv(a, 1) == a,
{
    assert(a >= 0 ==> a / 1 == a) by {
        vstd::arithmetic::div_mod::lemma_div_basics(a);
    }
    assert((-a) / 1 == -a) by {
        vstd::arithmetic::div_mod::lemma_div_basics(-a);
    }
}

/// Dividing zero gives zero.
pub proof fn lemma_tdiv_zero(d: int)
    requires
        0 < d,
    ensures
        tdiv(0, d) == 0,
{
    lemma_div_of0(d);
}

/// A dividend within `c` multiples of the divisor has a quotient within `c`.
pub proof fn lemma_tdiv_abs_bound(a: int, d: int, c: int)
    requires
        0 < d,
        0 <= c,
        -(c * d) <= a <= c * d,
    ensures
        -c <= tdiv(a, d) <= c,
{
    assert(c * d == d * c) by {
        vstd::arithmetic::mul::lemma_mul_is_commutative(c, d);
    }
    if a >= 0 {
        lemma_div_pos_is_pos(a, d);
        lemma_div_is_ordered(a, d * c, d);
        lemma_div_multiples_vanish(c, d);
    } else {
        lemma_div_pos_is_pos(-a, d);
        lemma_div_is_ordered(-a, d * c, d);
        lemma_div_multiples_vanish(c, d);
    }
}

/// The quotient never grows past a nonnegative dividend.
pub proof fn lemma_tdiv_nonincreasing(a: int, d: int)
    requires
        0 <= a,
        0 < d,
    ensures
        0 <= tdiv(a, d) <= a,
{
    lemma_div_pos_is_pos(a, d);
    lemma_div_nonincreasing(a, d);
}

/// Truncating division of `a` by a positive divisor `d`.
pub fn div_trunc(a: i128, d: i128) -> (q: i128)
    requires
        1 <= d,
        i128::MIN < a,
    ensures
        q == tdiv(a as int, d as int),
{
    if a >= 0 {
        let q: u128 = (a as u128) / (d as u128);
        proof {
            lemma_tdiv_nonincreasing(a as int, d as int);
        }
        q as i128
    } else {
        let m: u128 = (-a) as u128;
        let q: u128 = m / (d as u128);
        proof {
            lemma_tdiv_nonincreasing(m as int, d as int);
        }
        -(q as i128)
    }
}

} // verus!
