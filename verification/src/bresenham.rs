//! Integer line rasterization.
//!
//! The ordered pixel sequence between two integer points, inclusive of
//! both endpoints, symmetric in every octant: along the major axis one
//! step per pixel, the minor coordinate following the rounded ideal
//! line exactly as the classic incremental algorithm does.

use vstd::prelude::*;

verus! {

/// Magnitude bound on the coordinates the rasterizer accepts.
pub const BRES_MAX: i64 = 0x1_0000_0000;

/// The magnitude of `v`.
pub open spec fn abs_i(v: int) -> int {
    if v < 0 {
        -v
    } else {
        v
    }
}

/// The sign of `v`: `-1`, `0` or `1`.
pub open spec fn sign_i(v: int) -> int {
    if v < 0 {
        -1
    } else if v > 0 {
        1
    } else {
        0
    }
}

/// How many steps the line from `a` to `b` takes: the larger
/// coordinate distance.
pub open spec fn bres_steps(a: (int, int), b: (int, int)) -> int {
    let adx = abs_i(b.0 - a.0);
    let ady = abs_i(b.1 - a.1);
    if adx >= ady {
        adx
    } else {
        ady
    }
}

/// The `k`-th pixel of the line from `a` to `b`: one step per pixel
/// along the major axis, the minor coordinate rounded from the ideal
/// line (half away from `a`).
pub open spec fn bres_pt(a: (int, int), b: (int, int), k: int) -> (int, int) {
    let dx = b.0 - a.0;
    let dy = b.1 - a.1;
    let adx = abs_i(dx);
    let ady = abs_i(dy);
    if adx == 0 && ady == 0 {
        a
    } else if adx >= ady {
        (a.0 + sign_i(dx) * k, a.1 + sign_i(dy) * ((2 * k * ady + adx) / (2 * adx)))
    } else {
        (a.0 + sign_i(dx) * ((2 * k * adx + ady) / (2 * ady)), a.1 + sign_i(dy) * k)
    }
}

/// The minor offset after `k` of `steps` major steps is at most the
/// whole minor distance: `(2*k*am + aj) / (2*aj) <= am` for
/// `0 <= k <= aj` and `1 <= aj`.
proof fn lemma_minor_le(aj: int, am: int, k: int)
    requires
        1 <= aj,
        0 <= am,
        0 <= k <= aj,
    ensures
        0 <= (2 * k * am + aj) / (2 * aj) <= am,
{
    vstd::arithmetic::div_mod::lemma_div_pos_is_pos(2 * k * am + aj, 2 * aj);
    assert(2 * k * am + aj <= aj * (2 * am + 1)) by (nonlinear_arith)
        requires 0 <= k <= aj && 0 <= am,
    ;
    vstd::arithmetic::div_mod::lemma_div_is_ordered(2 * k * am + aj, aj * (2 * am + 1), 2 * aj);
    lemma_full_minor(aj, am);
}

/// After all `aj` major steps the minor offset is exactly the minor
/// distance: `(aj * (2*am + 1)) / (2*aj) == am`.
proof fn lemma_full_minor(aj: int, am: int)
    requires
        1 <= aj,
        0 <= am,
    ensures
        (aj * (2 * am + 1)) / (2 * aj) == am,
        (2 * aj * am + aj) / (2 * aj) == am,
{
    vstd::arithmetic::div_mod::lemma_div_denominator(aj * (2 * am + 1), aj, 2);
    vstd::arithmetic::div_mod::lemma_div_multiples_vanish(2 * am + 1, aj);
    assert((2 * am + 1) / 2 == am) by {
        vstd::arithmetic::div_mod::lemma_fundamental_div_mod_converse(2 * am + 1, 2, am, 1);
    }
    assert(aj * 2 == 2 * aj);
    assert(aj * (2 * am + 1) == 2 * aj * am + aj) by (nonlinear_arith);
}

/// The line starts at `a` and ends at `b`.
pub proof fn lemma_bres_ends(a: (int, int), b: (int, int))
    ensures
        bres_pt(a, b, 0) == a,
        bres_pt(a, b, bres_steps(a, b)) == b,
{
    let dx = b.0 - a.0;
    let dy = b.1 - a.1;
    let adx = abs_i(dx);
    let ady = abs_i(dy);
    if adx == 0 && ady == 0 {
    } else if adx >= ady {
        assert(2 * 0 * ady + adx == adx) by (nonlinear_arith);
        assert(adx / (2 * adx) == 0) by {
            vstd::arithmetic::div_mod::lemma_basic_div(adx, 2 * adx);
        }
        assert(2 * adx * ady + adx == 2 * adx * ady + adx);
        lemma_full_minor(adx, ady);
        assert(sign_i(dy) * ady == dy);
        assert(sign_i(dx) * adx == dx);
    } else {
        assert(2 * 0 * adx + ady == ady) by (nonlinear_arith);
        assert(ady / (2 * ady) == 0) by {
            vstd::arithmetic::div_mod::lemma_basic_div(ady, 2 * ady);
        }
        lemma_full_minor(ady, adx);
        assert(sign_i(dx) * adx == dx);
        assert(sign_i(dy) * ady == dy);
    }
}

/// Compute the minor-axis offset `(2*k*am + aj) / (2*aj)`.
fn minor_offset(k: i64, am: i64, aj: i64) -> (q: i64)
    requires
        1 <= aj <= BRES_MAX,
        0 <= am <= BRES_MAX,
        0 <= k <= aj,
    ensures
        q == (2 * k * am + aj) / (2 * aj),
        0 <= q <= am,
{
    proof {
        assert((2 * (k as int)) * (am as int) <= 0x2_0000_0000_0000_0000) by (nonlinear_arith)
            requires 0 <= k <= 0x1_0000_0000 && 0 <= am <= 0x1_0000_0000,
        ;
    }
    let num: u128 = 2 * (k as u128) * (am as u128) + (aj as u128);
    let den: u128 = 2 * (aj as u128);
    let q: u128 = num / den;
    proof {
        lemma_minor_le(aj as int, am as int, k as int);
    }
    q as i64
}

/// The ordered pixels of the line from `(x0, y0)` to `(x1, y1)`,
/// inclusive of both endpoints.
pub fn bresenham_points(x0: i64, y0: i64, x1: i64, y1: i64) -> (r: Vec<(i64, i64)>)
    requires
        0 <= x0 <= BRES_MAX,
        0 <= y0 <= BRES_MAX,
        0 <= x1 <= BRES_MAX,
        0 <= y1 <= BRES_MAX,
    ensures
        r@.len() == bres_steps((x0 as int, y0 as int), (x1 as int, y1 as int)) + 1,
        forall|k: int|
            0 <= k < r@.len() ==> (#[trigger] r@[k].0 as int, r@[k].1 as int) == bres_pt(
                (x0 as int, y0 as int),
                (x1 as int, y1 as int),
                k,
            ),
{
    let ghost a = (x0 as int, y0 as int);
    let ghost b = (x1 as int, y1 as int);
    let dx: i64 = x1 - x0;
    let dy: i64 = y1 - y0;
    let adx: i64 = if dx < 0 {
        -dx
    } else {
        dx
    };
    let ady: i64 = if dy < 0 {
        -dy
    } else {
        dy
    };
    let sx: i64 = if dx < 0 {
        -1
    } else if dx > 0 {
        1
    } else {
        0
    };
    let sy: i64 = if dy < 0 {
        -1
    } else if dy > 0 {
        1
    } else {
        0
    };
    let mut r: Vec<(i64, i64)> = Vec::new();
    if adx == 0 && ady == 0 {
        r.push((x0, y0));
        return r;
    }
    if adx >= ady {
        let mut k: i64 = 0;
        while k <= adx
            invariant
                adx == abs_i(b.0 - a.0),
                ady == abs_i(b.1 - a.1),
                sx == sign_i(b.0 - a.0),
                sy == sign_i(b.1 - a.1),
                1 <= adx <= BRES_MAX,
                0 <= ady <= adx,
                a == (x0 as int, y0 as int),
                b == (x1 as int, y1 as int),
                0 <= x0 <= BRES_MAX,
                0 <= y0 <= BRES_MAX,
                -1 <= sx <= 1,
                -1 <= sy <= 1,
                0 <= k <= adx + 1,
                r@.len() == k,
                forall|kk: int| 0 <= kk < k ==> (#[trigger] r@[kk].0 as int, r@[kk].1 as int) == bres_pt(a, b, kk),
            decreases adx + 1 - k,
        {
            let q: i64 = minor_offset(k, ady, adx);
            proof {
                crate::fixed::lemma_abs_mul_le(sx as int, k as int, 1, BRES_MAX as int);
                crate::fixed::lemma_abs_mul_le(sy as int, q as int, 1, BRES_MAX as int);
            }
            r.push((x0 + sx * k, y0 + sy * q));
            k = k + 1;
        }
        r
    } else {
        let mut k: i64 = 0;
        while k <= ady
            invariant
                adx == abs_i(b.0 - a.0),
                ady == abs_i(b.1 - a.1),
                sx == sign_i(b.0 - a.0),
                sy == sign_i(b.1 - a.1),
                1 <= ady <= BRES_MAX,
                0 <= adx < ady,
                a == (x0 as int, y0 as int),
                b == (x1 as int, y1 as int),
                0 <= x0 <= BRES_MAX,
                0 <= y0 <= BRES_MAX,
                -1 <= sx <= 1,
                -1 <= sy <= 1,
                0 <= k <= ady + 1,
                r@.len() == k,
                forall|kk: int| 0 <= kk < k ==> (#[trigger] r@[kk].0 as int, r@[kk].1 as int) == bres_pt(a, b, kk),
            decreases ady + 1 - k,
        {
            let q: i64 = minor_offset(k, adx, ady);
            proof {
                crate::fixed::lemma_abs_mul_le(sx as int, q as int, 1, BRES_MAX as int);
                crate::fixed::lemma_abs_mul_le(sy as int, k as int, 1, BRES_MAX as int);
            }
            r.push((x0 + sx * q, y0 + sy * k));
            k = k + 1;
        }
        r
    }
}


/// Every pixel of a line whose endpoints lie in `[0, BRES_MAX]` stays
/// within twice that range.
pub proof fn lemma_bres_pt_bounds(a: (int, int), b: (int, int), k: int)
    requires
        0 <= a.0 <= BRES_MAX,
        0 <= a.1 <= BRES_MAX,
        0 <= b.0 <= BRES_MAX,
        0 <= b.1 <= BRES_MAX,
        0 <= k <= bres_steps(a, b),
    ensures
        -0x2_0000_0000 <= bres_pt(a, b, k).0 <= 0x2_0000_0000,
        -0x2_0000_0000 <= bres_pt(a, b, k).1 <= 0x2_0000_0000,
{
    let dx = b.0 - a.0;
    let dy = b.1 - a.1;
    let adx = abs_i(dx);
    let ady = abs_i(dy);
    if adx == 0 && ady == 0 {
    } else if adx >= ady {
        let q = (2 * k * ady + adx) / (2 * adx);
        lemma_minor_le(adx, ady, k);
        crate::fixed::lemma_abs_mul_le(sign_i(dx), k, 1, BRES_MAX as int);
        crate::fixed::lemma_abs_mul_le(sign_i(dy), q, 1, BRES_MAX as int);
    } else {
        let q = (2 * k * adx + ady) / (2 * ady);
        lemma_minor_le(ady, adx, k);
        crate::fixed::lemma_abs_mul_le(sign_i(dx), q, 1, BRES_MAX as int);
        crate::fixed::lemma_abs_mul_le(sign_i(dy), k, 1, BRES_MAX as int);
    }
}

} // verus!
