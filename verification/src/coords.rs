//! The coordinate mapper: a pixel index and a viewport become a point of the
//! complex plane.
//!
//! Along one axis, pixel `idx` of `extent` maps to
//! `(idx / extent) * size + low`, with the division real-valued.  In fixed
//! point this is the truncating quotient `(idx * size) / extent` plus `low`:
//! the product is taken before the division, so that the quotient keeps the
//! fraction `idx / extent` at full resolution.

use crate::fixed::{div_trunc, lemma_tdiv_abs_bound, lemma_tdiv_nonincreasing, tdiv};
use crate::params::{COORD_LIMIT_FACTOR, SCALE_LIMIT};
use vstd::arithmetic::mul::{
    lemma_mul_inequality, lemma_mul_is_commutative, lemma_mul_nonnegative, lemma_mul_upper_bound,
};
use vstd::prelude::*;

verus! {

/// Where pixel `idx` of `extent` lands along an axis whose viewport starts
/// at `low` and spans `size` fixed-point units.
pub open spec fn map_coord(idx: int, extent: int, low: int, size: int) -> int {
    tdiv(idx * size, extent) + low
}

/// Map a pixel index inside the grid to its fixed-point coordinate.  The
/// result never leaves the viewport's own span.
pub fn map_pixel(idx: u32, extent: u32, low: i128, size: i128) -> (c: i128)
    requires
        idx < extent,
        0 < size,
        -(COORD_LIMIT_FACTOR * SCALE_LIMIT) <= low,
        low + size <= COORD_LIMIT_FACTOR * SCALE_LIMIT,
    ensures
        c == map_coord(idx as int, extent as int, low as int, size as int),
        low <= c <= low + size,
{
    proof {
        lemma_mul_nonnegative(idx as int, size as int);
        lemma_mul_upper_bound(idx as int, 0x1_0000_0000, size as int, 2 * COORD_LIMIT_FACTOR * SCALE_LIMIT);
    }
    let prod: i128 = (idx as i128) * size;
    let q: i128 = div_trunc(prod, extent as i128);
    proof {
        lemma_mul_inequality(idx as int, extent as int, size as int);
        lemma_mul_is_commutative(extent as int, size as int);
        lemma_tdiv_abs_bound(prod as int, extent as int, size as int);
        lemma_tdiv_nonincreasing(prod as int, extent as int);
    }
    q + low
}

} // verus!
