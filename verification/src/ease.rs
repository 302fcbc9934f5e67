//! The ease-in-out transform: a fixed-point approximation of
//! `0.5 - 0.5*cos(pi*p)` on `[0, 1]`.
//!
//! The first half is a sixth-degree polynomial taken from the Taylor
//! expansion of the cosine, evaluated exactly in integers with one
//! final division; the second half mirrors the first through the
//! curve's center of symmetry.  The transform is exactly zero at zero,
//! one at one, one half at one half, and monotone non-decreasing.

use vstd::prelude::*;

use crate::fixed::FX_HALF;
use crate::fixed::FX_ONE;

verus! {

/// Quadratic coefficient of the easing polynomial, scaled by `2^80`:
/// near `(pi^2/4) * 2^80`, nudged so the curve passes exactly through
/// one half at one half.
pub const EASE_A: u128 = 2980741947217718112419840;

/// Quartic coefficient, `round((pi^4/48) * 2^48)`.
pub const EASE_B: u128 = 571212950629208;

/// Sextic coefficient, `round((pi^6/1440) * 2^16)`.
pub const EASE_C: u128 = 43754;

/// Common denominator of the polynomial: `2^96`.
pub const EASE_D: u128 = 79228162514264337593543950336;

/// Numerator of the easing polynomial on the first half:
/// `A*x^2 - B*x^4 + C*x^6`.
pub open spec fn ease_half_num(x: int) -> int {
    (EASE_A as int) * (x * x) - (EASE_B as int) * ((x * x) * (x * x)) + (EASE_C as int) * ((x * x)
        * (x * x) * (x * x))
}

/// The easing curve on `[0, 1/2]`.
pub open spec fn ease_half_spec(x: int) -> int {
    ease_half_num(x) / (EASE_D as int)
}

/// The eased progress: the polynomial on the first half, its point
/// reflection through `(1/2, 1/2)` on the second.
pub open spec fn ease_spec(p: int) -> int {
    if p <= FX_HALF {
        ease_half_spec(p)
    } else {
        FX_ONE - ease_half_spec(FX_ONE - p)
    }
}

/// On the first half the positive polynomial terms dominate the
/// negative one, so the numerator is nonnegative.
proof fn lemma_ease_num_nonneg(x: int)
    requires
        0 <= x <= FX_HALF,
    ensures
        (EASE_B as int) * ((x * x) * (x * x)) <= (EASE_A as int) * (x * x) + (EASE_C as int) * ((x
            * x) * (x * x) * (x * x)),
        0 <= ease_half_num(x),
{
    let a = EASE_A as int;
    let b = EASE_B as int;
    let c = EASE_C as int;
    assert(a >= b * 0x80000000);
    assert(b * ((x * x) * (x * x)) <= a * (x * x)) by (nonlinear_arith)
        requires
            0 <= x <= 32768,
            a == EASE_A as int,
            b == EASE_B as int,
            a >= b * 0x80000000,
    ;
    assert(0 <= c * ((x * x) * (x * x) * (x * x))) by (nonlinear_arith)
        requires 0 <= x && c == EASE_C as int,
    ;
}

/// One step of monotonicity: the numerator does not shrink from `x`
/// to `x + 1`.
proof fn lemma_ease_num_step(x: int)
    requires
        0 <= x < FX_HALF,
    ensures
        ease_half_num(x) <= ease_half_num(x + 1),
{
    let a = EASE_A as int;
    let b = EASE_B as int;
    let c = EASE_C as int;
    let y = x + 1;
    assert(y * y - x * x == 2 * x + 1) by (nonlinear_arith)
        requires y == x + 1,
    ;
    assert((y * y) * (y * y) - (x * x) * (x * x) == (2 * x + 1) * (2 * x * x + 2 * x + 1))
        by (nonlinear_arith)
        requires y == x + 1,
    ;
    assert((y * y) * (y * y) * (y * y) >= (x * x) * (x * x) * (x * x)) by (nonlinear_arith)
        requires y == x + 1 && 0 <= x,
    ;
    assert(2 * x * x + 2 * x + 1 <= 0x80000000) by (nonlinear_arith)
        requires 0 <= x <= 32767,
    ;
    assert(a >= b * 0x80000000);
    assert(b * (2 * x * x + 2 * x + 1) <= b * 0x80000000) by (nonlinear_arith)
        requires
            2 * x * x + 2 * x + 1 <= 0x80000000,
            b >= 0,
    ;
    assert(a - b * (2 * x * x + 2 * x + 1) >= 0);
    assert(a * (y * y) - b * ((y * y) * (y * y)) - (a * (x * x) - b * ((x * x) * (x * x))) == (2 * x
        + 1) * (a - b * (2 * x * x + 2 * x + 1))) by (nonlinear_arith)
        requires
            y * y - x * x == 2 * x + 1,
            (y * y) * (y * y) - (x * x) * (x * x) == (2 * x + 1) * (2 * x * x + 2 * x + 1),
    ;
    assert((2 * x + 1) * (a - b * (2 * x * x + 2 * x + 1)) >= 0) by (nonlinear_arith)
        requires
            0 <= x,
            a - b * (2 * x * x + 2 * x + 1) >= 0,
    ;
    assert(c * ((y * y) * (y * y) * (y * y)) >= c * ((x * x) * (x * x) * (x * x)))
        by (nonlinear_arith)
        requires
            (y * y) * (y * y) * (y * y) >= (x * x) * (x * x) * (x * x),
            c >= 0,
    ;
}

/// The numerator is monotone over the whole first half.
proof fn lemma_ease_num_mono(x1: int, x2: int)
    requires
        0 <= x1 <= x2 <= FX_HALF,
    ensures
        ease_half_num(x1) <= ease_half_num(x2),
    decreases x2 - x1,
{
    if x1 < x2 {
        lemma_ease_num_step(x2 - 1);
        lemma_ease_num_mono(x1, x2 - 1);
    }
}

/// The easing curve is monotone on the first half.
pub proof fn lemma_ease_half_mono(x1: int, x2: int)
    requires
        0 <= x1 <= x2 <= FX_HALF,
    ensures
        ease_half_spec(x1) <= ease_half_spec(x2),
{
    lemma_ease_num_mono(x1, x2);
    vstd::arithmetic::div_mod::lemma_div_is_ordered(
        ease_half_num(x1),
        ease_half_num(x2),
        EASE_D as int,
    );
}

/// The endpoint and midpoint values of the easing curve's first half
/// are exact.
pub proof fn lemma_ease_half_ends()
    ensures
        ease_half_spec(0) == 0,
        ease_half_spec(FX_HALF as int) == FX_HALF,
{
    assert(ease_half_num(0) == 0);
    assert(ease_half_num(32768) == 2596148429267413814265248164610048) by (nonlinear_arith);
    assert(2596148429267413814265248164610048int == (EASE_D as int) * 32768) by (nonlinear_arith);
    vstd::arithmetic::div_mod::lemma_div_multiples_vanish(32768, EASE_D as int);
}

/// The easing curve's first half stays within `[0, 1/2]`.
pub proof fn lemma_ease_half_range(x: int)
    requires
        0 <= x <= FX_HALF,
    ensures
        0 <= ease_half_spec(x) <= FX_HALF,
{
    lemma_ease_num_nonneg(x);
    vstd::arithmetic::div_mod::lemma_div_pos_is_pos(ease_half_num(x), EASE_D as int);
    lemma_ease_half_mono(x, FX_HALF as int);
    lemma_ease_half_ends();
}

/// The ease transform fixes zero, one half and one.
pub proof fn lemma_ease_ends()
    ensures
        ease_spec(0) == 0,
        ease_spec(FX_HALF as int) == FX_HALF,
        ease_spec(FX_ONE as int) == FX_ONE,
{
    lemma_ease_half_ends();
}

/// The ease transform is monotone non-decreasing on `[0, 1]`.
pub proof fn lemma_ease_mono(p1: int, p2: int)
    requires
        0 <= p1 <= p2 <= FX_ONE,
    ensures
        ease_spec(p1) <= ease_spec(p2),
{
    lemma_ease_half_ends();
    if p2 <= FX_HALF {
        lemma_ease_half_mono(p1, p2);
    } else if p1 > FX_HALF {
        lemma_ease_half_mono(FX_ONE - p2, FX_ONE - p1);
    } else {
        lemma_ease_half_mono(p1, FX_HALF as int);
        lemma_ease_half_mono(FX_ONE - p2, FX_HALF as int);
    }
}

/// The ease transform maps `[0, 1]` into `[0, 1]`.
pub proof fn lemma_ease_range(p: int)
    requires
        0 <= p <= FX_ONE,
    ensures
        0 <= ease_spec(p) <= FX_ONE,
{
    if p <= FX_HALF {
        lemma_ease_half_range(p);
    } else {
        lemma_ease_half_range(FX_ONE - p);
    }
}

/// The easing curve on the first half, evaluated exactly in 128-bit
/// integers with a single final division.
fn ease_half(x: i64) -> (r: i64)
    requires
        0 <= x <= FX_HALF,
    ensures
        r == ease_half_spec(x as int),
        0 <= r <= FX_HALF,
{
    proof {
        lemma_ease_num_nonneg(x as int);
        lemma_ease_half_range(x as int);
    }
    let xu: u128 = x as u128;
    proof {
        assert((xu as int) * (xu as int) <= 0x40000000) by (nonlinear_arith)
            requires xu <= 32768,
        ;
    }
    let x2: u128 = xu * xu;
    proof {
        assert((x2 as int) * (x2 as int) <= 0x1000000000000000) by (nonlinear_arith)
            requires x2 <= 0x40000000,
        ;
    }
    let x4: u128 = x2 * x2;
    proof {
        assert((x4 as int) * (x2 as int) <= 0x40000000000000000000000) by (nonlinear_arith)
            requires
                x2 <= 0x40000000,
                x4 <= 0x1000000000000000,
        ;
    }
    let x6: u128 = x4 * x2;
    proof {
        assert((EASE_A as int) * (x2 as int) <= (EASE_A as int) * 0x40000000) by (nonlinear_arith)
            requires 0 <= x2 <= 0x40000000,
        ;
        assert((EASE_C as int) * (x6 as int) <= (EASE_C as int) * 0x40000000000000000000000)
            by (nonlinear_arith)
            requires 0 <= x6 <= 0x40000000000000000000000,
        ;
        assert((EASE_B as int) * (x4 as int) <= (EASE_B as int) * 0x1000000000000000)
            by (nonlinear_arith)
            requires 0 <= x4 <= 0x1000000000000000,
        ;
    }
    let pos: u128 = EASE_A * x2 + EASE_C * x6;
    let neg: u128 = EASE_B * x4;
    proof {
        assert(neg <= pos);
    }
    let n: u128 = pos - neg;
    let q: u128 = n / EASE_D;
    proof {
        assert(n as int == ease_half_num(x as int));
        assert(q as int == ease_half_spec(x as int));
    }
    q as i64
}

/// The eased progress: slow near both ends, fast in the middle, after
/// the cosine ease-in-out transform.
pub fn ease(p: i64) -> (r: i64)
    requires
        0 <= p <= FX_ONE,
    ensures
        r == ease_spec(p as int),
        0 <= r <= FX_ONE,
{
    if p <= FX_HALF {
        ease_half(p)
    } else {
        FX_ONE - ease_half(FX_ONE - p)
    }
}

} // verus!
