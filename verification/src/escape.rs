//! The escape-time iterator.
//!
//! Starting from `z = 0`, the iteration repeatedly applies `z -> z^2 + c`
//! while the squared magnitude of `z` stays within the squared bailout
//! radius and the budget is not spent; the count of applied steps is the
//! divergence count of `c`.  In fixed point the squared and cross terms are
//! each divided by the scaling factor before use, rounding toward zero, and
//! the division order of the formula is kept as stated: the two squared
//! terms are divided separately, never combined first.

use crate::fixed::{
    div_trunc, lemma_tdiv_abs_bound, lemma_tdiv_neg, lemma_tdiv_nonincreasing, lemma_tdiv_one,
    lemma_tdiv_zero, tdiv,
};
use crate::params::{EvaluationParameters, COORD_LIMIT_FACTOR, SCALE_LIMIT};
use vstd::prelude::*;

verus! {

/// The point `(x, y)` lies strictly outside the bailout radius.
pub open spec fn escaped(x: int, y: int, bail: int) -> bool {
    x * x + y * y > bail * bail
}

/// Real part of one iteration step: `x^2 / s - y^2 / s + cx`.
pub open spec fn step_re(x: int, y: int, cx: int, s: int) -> int {
    tdiv(x * x, s) - tdiv(y * y, s) + cx
}

/// Imaginary part of one iteration step: `2 x y / s + cy`.
pub open spec fn step_im(x: int, y: int, cy: int, s: int) -> int {
    tdiv(2 * x * y, s) + cy
}

/// Steps taken from state `(x, y)` under constant `(cx, cy)` before escape,
/// with at most `fuel` steps left.
pub open spec fn count_from(
    x: int,
    y: int,
    cx: int,
    cy: int,
    s: int,
    bail: int,
    fuel: nat,
) -> nat
    decreases fuel,
{
    if escaped(x, y, bail) || fuel == 0 {
        0
    } else {
        (1 + count_from(
            step_re(x, y, cx, s),
            step_im(x, y, cy, s),
            cx,
            cy,
            s,
            bail,
            (fuel - 1) as nat,
        )) as nat
    }
}

/// The divergence count of the point `(cx, cy)`: how many iteration steps
/// run before escape, the whole budget if the point never escapes.
pub open spec fn escape_count(cx: int, cy: int, p: EvaluationParameters) -> nat {
    count_from(0, 0, cx, cy, p.scaling_factor as int, p.bailout as int, p.max_iterations as nat)
}

/// The point lies within eight scaling factors of the origin, where the
/// iteration is proven free of overflow.
pub open spec fn point_in_range(cx: int, cy: int, s: int) -> bool {
    &&& -(COORD_LIMIT_FACTOR as int) * s <= cx <= COORD_LIMIT_FACTOR * s
    &&& -(COORD_LIMIT_FACTOR as int) * s <= cy <= COORD_LIMIT_FACTOR * s
}

proof fn lemma_square_nonneg(x: int)
    by (nonlinear_arith)
    ensures
        0 <= x * x,
{
}

proof fn lemma_square_root_within(x: int, b: int)
    by (nonlinear_arith)
    requires
        x * x <= b * b,
        0 <= b,
    ensures
        -b <= x <= b,
{
}

proof fn lemma_square_range(x: int, s: int)
    by (nonlinear_arith)
    requires
        1 <= s <= SCALE_LIMIT,
        -(40 * s) <= x <= 40 * s,
    ensures
        0 <= x * x <= 1844674407370955161600,
{
}

proof fn lemma_bailout_square_range(bail: int, s: int)
    by (nonlinear_arith)
    requires
        1 <= s <= SCALE_LIMIT,
        0 <= bail <= 4 * s,
    ensures
        0 <= bail * bail <= (16 * s) * s,
        (16 * s) * s <= 18446744073709551616,
{
}

proof fn lemma_cross_within(x: int, y: int, s: int)
    by (nonlinear_arith)
    requires
        1 <= s <= SCALE_LIMIT,
        -(4 * s) <= x <= 4 * s,
        -(4 * s) <= y <= 4 * s,
    ensures
        -((32 * s) * s) <= 2 * x * y <= (32 * s) * s,
        (32 * s) * s <= 36893488147419103232,
{
}

/// Bounds of one iteration step: from an unescaped state, the next state
/// stays within forty scaling factors of the origin, and every intermediate
/// term is within range of the divisions.
proof fn lemma_step_bounds(x: int, y: int, cx: int, cy: int, s: int, bail: int)
    requires
        1 <= s <= SCALE_LIMIT,
        0 <= bail <= 4 * s,
        -(8 * s) <= cx <= 8 * s,
        -(8 * s) <= cy <= 8 * s,
        x * x + y * y <= bail * bail,
    ensures
        0 <= x * x <= (16 * s) * s,
        0 <= y * y <= (16 * s) * s,
        -((32 * s) * s) <= 2 * x * y <= (32 * s) * s,
        (32 * s) * s <= 36893488147419103232,
        -(40 * s) <= step_re(x, y, cx, s) <= 40 * s,
        -(40 * s) <= step_im(x, y, cy, s) <= 40 * s,
{
    lemma_square_nonneg(x);
    lemma_square_nonneg(y);
    lemma_bailout_square_range(bail, s);
    lemma_square_root_within(x, bail);
    lemma_square_root_within(y, bail);
    lemma_cross_within(x, y, s);
    lemma_tdiv_abs_bound(x * x, s, 16 * s);
    lemma_tdiv_nonincreasing(x * x, s);
    lemma_tdiv_abs_bound(y * y, s, 16 * s);
    lemma_tdiv_nonincreasing(y * y, s);
    lemma_tdiv_abs_bound(2 * x * y, s, 32 * s);
}

/// The divergence count never exceeds the remaining budget.
pub proof fn lemma_count_le_fuel(x: int, y: int, cx: int, cy: int, s: int, bail: int, fuel: nat)
    ensures
        count_from(x, y, cx, cy, s, bail, fuel) <= fuel,
    decreases fuel,
{
    if !escaped(x, y, bail) && fuel > 0 {
        lemma_count_le_fuel(
            step_re(x, y, cx, s),
            step_im(x, y, cy, s),
            cx,
            cy,
            s,
            bail,
            (fuel - 1) as nat,
        );
    }
}

/// Every divergence count lies between zero and the iteration budget.
pub proof fn lemma_count_within_budget(cx: int, cy: int, p: EvaluationParameters)
    ensures
        0 <= escape_count(cx, cy, p) <= p.max_iterations,
{
    lemma_count_le_fuel(
        0,
        0,
        cx,
        cy,
        p.scaling_factor as int,
        p.bailout as int,
        p.max_iterations as nat,
    );
}

/// Compute the divergence count of the fixed-point coordinate `(cx, cy)`.
pub fn escape_time(cx: i128, cy: i128, p: &EvaluationParameters) -> (n: u32)
    requires
        p.wf(),
        point_in_range(cx as int, cy as int, p.scaling_factor as int),
    ensures
        n == escape_count(cx as int, cy as int, *p),
        n <= p.max_iterations,
{
    let s: i128 = p.scaling_factor;
    proof {
        lemma_bailout_square_range(p.bailout as int, s as int);
    }
    let bb: i128 = p.bailout * p.bailout;
    let mut x: i128 = 0;
    let mut y: i128 = 0;
    let mut n: u32 = 0;
    while n < p.max_iterations
        invariant
            p.wf(),
            s == p.scaling_factor,
            bb == (p.bailout as int) * (p.bailout as int),
            point_in_range(cx as int, cy as int, s as int),
            -(40 * (s as int)) <= x <= 40 * (s as int),
            -(40 * (s as int)) <= y <= 40 * (s as int),
            n <= p.max_iterations,
            escape_count(cx as int, cy as int, *p) == n + count_from(
                x as int,
                y as int,
                cx as int,
                cy as int,
                s as int,
                p.bailout as int,
                (p.max_iterations - n) as nat,
            ),
        decreases p.max_iterations - n,
    {
        proof {
            lemma_square_range(x as int, s as int);
            lemma_square_range(y as int, s as int);
        }
        let xx: i128 = x * x;
        let yy: i128 = y * y;
        if xx + yy > bb {
            return n;
        }
        proof {
            lemma_step_bounds(
                x as int,
                y as int,
                cx as int,
                cy as int,
                s as int,
                p.bailout as int,
            );
        }
        let tx: i128 = div_trunc(xx, s) - div_trunc(yy, s) + cx;
        let cross: i128 = 2 * x * y;
        let ty: i128 = div_trunc(cross, s) + cy;
        x = tx;
        y = ty;
        n = n + 1;
    }
    n
}

proof fn lemma_origin_count(s: int, bail: int, fuel: nat)
    requires
        0 < s,
        0 <= bail,
    ensures
        count_from(0, 0, 0, 0, s, bail, fuel) == fuel,
    decreases fuel,
{
    lemma_square_nonneg(bail);
    if fuel > 0 {
        lemma_tdiv_zero(s);
        assert(step_re(0, 0, 0, s) == 0);
        assert(step_im(0, 0, 0, s) == 0);
        lemma_origin_count(s, bail, (fuel - 1) as nat);
    }
}

/// The origin never escapes: its count is the whole budget, whatever the cap.
pub proof fn lemma_origin_never_escapes(p: EvaluationParameters)
    requires
        p.wf(),
    ensures
        escape_count(0, 0, p) == p.max_iterations,
{
    lemma_origin_count(p.scaling_factor as int, p.bailout as int, p.max_iterations as nat);
}

/// The point `2 + 2i`, under the default bailout radius of two, escapes on
/// the very first step.
pub proof fn lemma_far_point_escapes_once(p: EvaluationParameters)
    requires
        p.wf(),
        p.bailout == 2 * p.scaling_factor,
        1 <= p.max_iterations,
    ensures
        escape_count(2 * p.scaling_factor as int, 2 * p.scaling_factor as int, p) == 1,
{
    let s = p.scaling_factor as int;
    let b = p.bailout as int;
    let c = 2 * s;
    lemma_square_nonneg(b);
    lemma_tdiv_zero(s);
    assert(step_re(0, 0, c, s) == c);
    assert(step_im(0, 0, c, s) == c);
    assert(c * c + c * c > b * b) by (nonlinear_arith)
        requires
            1 <= s,
            c == 2 * s,
            b == 2 * s,
    ;
    assert(count_from(c, c, c, c, s, b, (p.max_iterations - 1) as nat) == 0);
}

proof fn lemma_count_conjugate(x: int, y: int, cx: int, cy: int, s: int, bail: int, fuel: nat)
    requires
        0 < s,
    ensures
        count_from(x, -y, cx, -cy, s, bail, fuel) == count_from(x, y, cx, cy, s, bail, fuel),
    decreases fuel,
{
    assert((-y) * (-y) == y * y) by (nonlinear_arith);
    if !escaped(x, y, bail) && fuel > 0 {
        assert(2 * x * (-y) == -(2 * x * y)) by (nonlinear_arith);
        lemma_tdiv_neg(2 * x * y, s);
        assert(step_re(x, -y, cx, s) == step_re(x, y, cx, s));
        assert(step_im(x, -y, -cy, s) == -step_im(x, y, cy, s));
        lemma_count_conjugate(
            step_re(x, y, cx, s),
            step_im(x, y, cy, s),
            cx,
            cy,
            s,
            bail,
            (fuel - 1) as nat,
        );
    }
}

/// Conjugate symmetry: the iteration count at `(cx, cy)` equals the count
/// at `(cx, -cy)`.
pub proof fn lemma_conjugate_symmetry(cx: int, cy: int, p: EvaluationParameters)
    requires
        p.wf(),
    ensures
        escape_count(cx, -cy, p) == escape_count(cx, cy, p),
{
    lemma_count_conjugate(
        0,
        0,
        cx,
        cy,
        p.scaling_factor as int,
        p.bailout as int,
        p.max_iterations as nat,
    );
}

/// Real part of one textbook iteration step, with no rescaling division:
/// `x^2 - y^2 + cx`.
pub open spec fn plain_step_re(x: int, y: int, cx: int) -> int {
    x * x - y * y + cx
}

/// Imaginary part of one textbook iteration step: `2 x y + cy`.
pub open spec fn plain_step_im(x: int, y: int, cy: int) -> int {
    2 * x * y + cy
}

/// Steps before escape under the textbook iteration, with no rescaling.
pub open spec fn plain_count_from(
    x: int,
    y: int,
    cx: int,
    cy: int,
    bail: int,
    fuel: nat,
) -> nat
    decreases fuel,
{
    if escaped(x, y, bail) || fuel == 0 {
        0
    } else {
        (1 + plain_count_from(
            plain_step_re(x, y, cx),
            plain_step_im(x, y, cy),
            cx,
            cy,
            bail,
            (fuel - 1) as nat,
        )) as nat
    }
}

proof fn lemma_count_unit_scale(x: int, y: int, cx: int, cy: int, bail: int, fuel: nat)
    ensures
        count_from(x, y, cx, cy, 1, bail, fuel) == plain_count_from(x, y, cx, cy, bail, fuel),
    decreases fuel,
{
    if !escaped(x, y, bail) && fuel > 0 {
        lemma_tdiv_one(x * x);
        lemma_tdiv_one(y * y);
        lemma_tdiv_one(2 * x * y);
        assert(step_re(x, y, cx, 1) == plain_step_re(x, y, cx));
        assert(step_im(x, y, cy, 1) == plain_step_im(x, y, cy));
        lemma_count_unit_scale(
            plain_step_re(x, y, cx),
            plain_step_im(x, y, cy),
            cx,
            cy,
            bail,
            (fuel - 1) as nat,
        );
    }
}

/// With a scaling factor of one, the rescaled iteration runs through the
/// very sequence of the textbook iteration `x^2 - y^2 + cx`, `2 x y + cy`,
/// and gives the same count.
pub proof fn lemma_unit_scaling_is_textbook(cx: int, cy: int, p: EvaluationParameters)
    requires
        p.scaling_factor == 1,
    ensures
        escape_count(cx, cy, p) == plain_count_from(
            0,
            0,
            cx,
            cy,
            p.bailout as int,
            p.max_iterations as nat,
        ),
{
    lemma_count_unit_scale(0, 0, cx, cy, p.bailout as int, p.max_iterations as nat);
}

} // verus!
