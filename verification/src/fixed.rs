//! Fixed-point scalar arithmetic.
//!
//! A scalar is an `i64` carrying sixteen fractional bits: the value `v`
//! stands for the real number `v / 65536`.  Multiplication rounds toward
//! negative infinity; linear interpolation rounds to the nearest
//! representable value (half up).

use vstd::prelude::*;

verus! {

/// The fixed-point representation of one.
pub const FX_ONE: i64 = 65536;

/// The fixed-point representation of one half.
pub const FX_HALF: i64 = 32768;

/// Magnitude bound accepted by [`div_floor`] and the other helpers.
pub const FX_ARG_MAX: i64 = 0x4000_0000_0000_0000;

/// Fixed-point product: the real product of the two scalars, rounded
/// toward negative infinity onto the fixed-point grid.
pub open spec fn fx_mul_spec(a: int, b: int) -> int {
    (a * b) / (FX_ONE as int)
}

/// Linear interpolation from `a` (at `p == 0`) to `b` (at `p == FX_ONE`),
/// rounded to the nearest grid value, half up.
pub open spec fn fx_lerp_spec(a: int, b: int, p: int) -> int {
    (a * (FX_ONE - p) + b * p + FX_HALF) / (FX_ONE as int)
}

/// Floor division of `a` by a positive divisor `b`.
///
/// `i64` division in Rust truncates toward zero, so the quotient of a
/// negative dividend is produced from the unsigned magnitudes instead.
pub fn div_floor(a: i64, b: i64) -> (r: i64)
    requires
        1 <= b,
        i64::MIN < a,
    ensures
        r == (a as int) / (b as int),
{
    if a >= 0 {
        let q: u64 = (a as u64) / (b as u64);
        q as i64
    } else {
        let na: u64 = (-a) as u64;
        let bu: u64 = b as u64;
        let q: u64 = (na + bu - 1) / bu;
        proof {
            lemma_neg_div(a as int, b as int);
            assert(na as int + bu - 1 <= na as int * bu) by (nonlinear_arith)
                requires na >= 1 && bu >= 1,
            ;
            vstd::arithmetic::div_mod::lemma_div_is_ordered(na as int + bu - 1, na as int * bu, bu as int);
            vstd::arithmetic::div_mod::lemma_div_multiples_vanish(na as int, bu as int);
            assert(bu as int * na as int == na as int * bu as int);
        }
        -(q as i64)
    }
}

/// Floor division of a negative dividend equals the negated ceiling
/// division of its magnitude.
proof fn lemma_neg_div(a: int, b: int)
    requires
        a < 0,
        b >= 1,
    ensures
        a / b == -((-a + b - 1) / b),
{
    let na = -a;
    let q = (na + b - 1) / b;
    vstd::arithmetic::div_mod::lemma_fundamental_div_mod(na + b - 1, b);
    let r = (na + b - 1) % b;
    vstd::arithmetic::div_mod::lemma_mod_bound(na + b - 1, b);
    assert(na + b - 1 == q * b + r);
    assert(a == (-q) * b + (b - 1 - r)) by (nonlinear_arith)
        requires na + b - 1 == q * b + r && a == -na,
    ;
    vstd::arithmetic::div_mod::lemma_fundamental_div_mod_converse(a, b, -q, b - 1 - r);
}

/// Fixed-point multiplication, rounded toward negative infinity.
pub fn fx_mul(a: i64, b: i64) -> (r: i64)
    requires
        -FX_ARG_MAX <= (a as int) * (b as int) <= FX_ARG_MAX,
    ensures
        r == fx_mul_spec(a as int, b as int),
{
    let p: i64 = a * b;
    div_floor(p, FX_ONE)
}

/// Magnitude bound on each interpolation endpoint.
pub const FX_LERP_MAX: i64 = 0x3000_0000_0000;

/// Fixed-point linear interpolation, rounded to nearest (half up).
pub fn fx_lerp(a: i64, b: i64, p: i64) -> (r: i64)
    requires
        0 <= p <= FX_ONE,
        -FX_LERP_MAX <= a <= FX_LERP_MAX,
        -FX_LERP_MAX <= b <= FX_LERP_MAX,
    ensures
        r == fx_lerp_spec(a as int, b as int, p as int),
{
    proof {
        lemma_abs_mul_le(a as int, (FX_ONE - p) as int, FX_LERP_MAX as int, FX_ONE as int);
        lemma_abs_mul_le(b as int, p as int, FX_LERP_MAX as int, FX_ONE as int);
    }
    let n: i64 = a * (FX_ONE - p) + b * p;
    div_floor(n + FX_HALF, FX_ONE)
}

/// A product is bounded by the product of the factors' bounds.
pub proof fn lemma_abs_mul_le(a: int, b: int, ma: int, mb: int)
    requires
        -ma <= a <= ma,
        -mb <= b <= mb,
    ensures
        -(ma * mb) <= a * b <= ma * mb,
{
    assert(-(ma * mb) <= a * b <= ma * mb) by (nonlinear_arith)
        requires -ma <= a <= ma && -mb <= b <= mb,
    ;
}

/// Interpolation at progress zero returns the first endpoint exactly.
pub proof fn lemma_lerp_at_zero(a: int, b: int)
    ensures
        fx_lerp_spec(a, b, 0) == a,
{
    assert(a * (FX_ONE as int) + b * 0 + FX_HALF == a * 65536 + 32768);
    assert((a * 65536 + 32768) / 65536 == a) by (nonlinear_arith);
}

/// Interpolation at progress one returns the second endpoint exactly.
pub proof fn lemma_lerp_at_one(a: int, b: int)
    ensures
        fx_lerp_spec(a, b, FX_ONE as int) == b,
{
    assert(a * 0 + b * 65536 + 32768 == b * 65536 + 32768);
    assert((b * 65536 + 32768) / 65536 == b) by (nonlinear_arith);
}

/// Interpolation at progress one half returns the midpoint of the
/// endpoints, rounded to the nearest grid value, half up.
pub proof fn lemma_lerp_at_half(a: int, b: int)
    ensures
        fx_lerp_spec(a, b, FX_HALF as int) == (a + b + 1) / 2,
{
    assert(a * 32768 + b * 32768 + 32768 == (a + b + 1) * 32768) by (nonlinear_arith);
    assert(((a + b + 1) * 32768) / 65536 == (a + b + 1) / 2) by (nonlinear_arith);
}


/// Fixed-point power: `e`-fold fixed-point multiplication of `b`,
/// starting from one.
pub open spec fn fx_pow_spec(b: int, e: nat) -> int
    decreases e,
{
    if e == 0 {
        FX_ONE as int
    } else {
        fx_mul_spec(b, fx_pow_spec(b, (e - 1) as nat))
    }
}

/// A power of a scalar in `[0, 1]` stays in `[0, 1]`.
pub proof fn lemma_fx_pow_range(b: int, e: nat)
    requires
        0 <= b <= FX_ONE,
    ensures
        0 <= fx_pow_spec(b, e) <= FX_ONE,
    decreases e,
{
    if e > 0 {
        lemma_fx_pow_range(b, (e - 1) as nat);
        let q = fx_pow_spec(b, (e - 1) as nat);
        assert(0 <= b * q <= 65536 * 65536) by (nonlinear_arith)
            requires 0 <= b <= 65536 && 0 <= q <= 65536,
        ;
        vstd::arithmetic::div_mod::lemma_div_pos_is_pos(b * q, 65536);
        vstd::arithmetic::div_mod::lemma_div_is_ordered(b * q, 65536int * 65536int, 65536);
    }
}

/// Every power of one is one.
pub proof fn lemma_fx_pow_one(e: nat)
    ensures
        fx_pow_spec(FX_ONE as int, e) == FX_ONE,
    decreases e,
{
    if e > 0 {
        lemma_fx_pow_one((e - 1) as nat);
        vstd::arithmetic::div_mod::lemma_div_multiples_vanish(65536, 65536);
    }
}

/// Every positive power of zero is zero.
pub proof fn lemma_fx_pow_zero(e: nat)
    requires
        e >= 1,
    ensures
        fx_pow_spec(0, e) == 0,
    decreases e,
{
    if e > 1 {
        lemma_fx_pow_zero((e - 1) as nat);
    }
    assert(0 * fx_pow_spec(0, (e - 1) as nat) == 0);
}

/// Fixed-point power by repeated fixed-point multiplication.
pub fn fx_pow(b: i64, e: u32) -> (r: i64)
    requires
        0 <= b <= FX_ONE,
    ensures
        r == fx_pow_spec(b as int, e as nat),
        0 <= r <= FX_ONE,
{
    let mut acc: i64 = FX_ONE;
    let mut i: u32 = 0;
    while i < e
        invariant
            0 <= b <= FX_ONE,
            i <= e,
            acc == fx_pow_spec(b as int, i as nat),
            0 <= acc <= FX_ONE,
        decreases e - i,
    {
        proof {
            lemma_abs_mul_le(acc as int, b as int, FX_ONE as int, FX_ONE as int);
            lemma_fx_pow_range(b as int, (i + 1) as nat);
        }
        let ghost prev = acc as int;
        acc = fx_mul(acc, b);
        proof {
            assert(fx_pow_spec(b as int, (i + 1) as nat)
                == fx_mul_spec(b as int, fx_pow_spec(b as int, i as nat)));
            assert(prev * b == b * prev);
        }
        i = i + 1;
    }
    proof {
        lemma_fx_pow_range(b as int, e as nat);
    }
    acc
}

/// A quotient by the fixed-point unit is bounded once the dividend is.
pub proof fn lemma_fx_div_bound(x: int, m: int)
    requires
        m >= 0,
        -(m * 65536) <= x <= m * 65536,
    ensures
        -m <= x / 65536 <= m,
{
    vstd::arithmetic::div_mod::lemma_div_is_ordered(x, m * 65536, 65536);
    vstd::arithmetic::div_mod::lemma_div_is_ordered(-(m * 65536), x, 65536);
    vstd::arithmetic::div_mod::lemma_div_multiples_vanish(m, 65536);
    vstd::arithmetic::div_mod::lemma_div_multiples_vanish(-m, 65536);
    assert(65536 * m == m * 65536);
    assert(65536 * -m == -(m * 65536));
}

/// Scaling by the fixed-point unit and dividing it out is exact.
pub proof fn lemma_fx_mul_unit(c: int)
    ensures
        fx_mul_spec(c, FX_ONE as int) == c,
{
    vstd::arithmetic::div_mod::lemma_div_multiples_vanish(c, 65536);
    assert(c * 65536 == 65536 * c);
}

/// Multiplying by zero gives zero.
pub proof fn lemma_fx_mul_zero(c: int)
    ensures
        fx_mul_spec(c, 0) == 0,
        fx_mul_spec(0, c) == 0,
{
    assert(c * 0 == 0);
    assert(0 * c == 0);
}


/// An interpolation lands between its endpoints, within one grid step
/// above the larger.
pub proof fn lemma_lerp_bounds(a: int, b: int, p: int, m: int)
    requires
        0 <= p <= FX_ONE,
        -m <= a <= m,
        -m <= b <= m,
    ensures
        -m <= fx_lerp_spec(a, b, p) <= m + 1,
{
    assert(-m * 65536 <= a * (FX_ONE - p) + b * p <= m * 65536) by (nonlinear_arith)
        requires
            0 <= p <= 65536,
            -m <= a <= m,
            -m <= b <= m,
    ;
    assert((m * 65536 + 32768) / 65536 <= m + 1 && -m <= (-m * 65536 + 32768) / 65536)
        by (nonlinear_arith)
        requires m >= 0,
    ;
    vstd::arithmetic::div_mod::lemma_div_is_ordered(
        a * (FX_ONE - p) + b * p + FX_HALF,
        m * 65536 + 32768,
        65536,
    );
    vstd::arithmetic::div_mod::lemma_div_is_ordered(
        -m * 65536 + 32768,
        a * (FX_ONE - p) + b * p + FX_HALF,
        65536,
    );
}

} // verus!
