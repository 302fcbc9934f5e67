//! Bezier curves of arbitrary order.
//!
//! A curve holds control points relative to an origin and evaluates
//! the generalized Bernstein-polynomial sum in fixed-point arithmetic.
//! Drawing samples the parameter at a fixed rate and writes one pixel
//! per sample.

use vstd::prelude::*;

use crate::binomial::binom;
use crate::binomial::lemma_binom_ends;
use crate::binomial::spec_binom;
use crate::color::Color;
use crate::fixed::FX_ONE;
use crate::fixed::fx_mul;
use crate::fixed::fx_mul_spec;
use crate::fixed::fx_pow;
use crate::fixed::fx_pow_spec;
use crate::fixed::lemma_abs_mul_le;
use crate::fixed::lemma_fx_div_bound;
use crate::fixed::lemma_fx_mul_unit;
use crate::fixed::lemma_fx_mul_zero;
use crate::fixed::lemma_fx_pow_one;
use crate::fixed::lemma_fx_pow_zero;
use crate::frame::Frame;
use crate::frame::frame_height;
use crate::frame::frame_put;
use crate::frame::frame_wf;
use crate::frame::frame_width;
use crate::frame::img_dims;
use crate::frame::img_pixels;
use crate::frame::lemma_stamped_insert;
use crate::frame::stamped;
use crate::vector::Vector;
use crate::vector::px_spec;
use crate::vector::py_spec;

verus! {

/// Most control points a well-formed curve may carry: the Bernstein
/// weights stay exact in 64 bits up to order twelve; higher orders are
/// a documented limitation.
pub const MAX_CTRL: usize = 13;

/// Magnitude bound on a well-formed stroke thickness, in pixels.
pub const MAX_THICKNESS: i32 = 10000;

/// Magnitude bound on a single Bernstein term of a well-formed curve.
pub const TERM_MAX: i64 = 0x100_0000_0000;

/// Magnitude bound on the trace of a well-formed curve.
pub const TRACE_MAX: i64 = 0x1000_0000_0000;

/// Magnitude bound on the drawing shift handed to a curve: a
/// placement plus a shape origin.
pub const DRAW_LOC_MAX: i64 = 0x1000_0000;

/// Number of parameter steps from zero to one when a curve is drawn
/// or traced: a fixed, non-adaptive sampling rate.
pub const SAMPLES: u32 = 10000;

/// A Bezier curve of arbitrary order: control points relative to an
/// origin, with a color and a stroke thickness.
#[derive(Clone, Debug)]
pub struct Bezier {
    /// Origin the control points are relative to.
    pub origin: Vector,
    /// Stroke color.
    pub color: Color,
    /// Stroke thickness in pixels, used when the curve is traced with
    /// a brush.
    pub thickness: i32,
    /// Control points, relative to the origin.
    pub points: Vec<Vector>,
}

impl Bezier {
    /// Coordinates and order stay small enough for every fixed-point
    /// computation on the curve to be exact in 64 bits.
    pub open spec fn wf(self) -> bool {
        &&& self.points@.len() <= MAX_CTRL
        &&& self.origin.wf()
        &&& (forall|i: int| 0 <= i < self.points@.len() ==> self.points@[i].wf())
        &&& -MAX_THICKNESS <= self.thickness <= MAX_THICKNESS
    }

    /// Construct a new Bezier curve, given control points and an
    /// origin; the control points are relative to the origin.
    pub fn new(points: Vec<Vector>, origin: Vector, color: Color, thickness: i32) -> (b: Bezier)
        ensures
            b == (Bezier { origin, color, thickness, points }),
    {
        Bezier { origin, color, thickness, points }
    }

    /// An owned copy with the same origin, color, thickness and
    /// control points.
    pub fn duplicate(&self) -> (b: Bezier)
        ensures
            b.origin == self.origin,
            b.color == self.color,
            b.thickness == self.thickness,
            b.points@ == self.points@,
    {
        let points: Vec<Vector> = self.points.clone();
        proof {
            assert(points@ =~= self.points@);
        }
        Bezier { origin: self.origin, color: self.color, thickness: self.thickness, points }
    }
}

/// The Bernstein weight of control point `k` on a curve of order `n`
/// at parameter `t`: `C(n, k) * (1-t)^(n-k) * t^k` in fixed-point form.
pub open spec fn bez_weight(n: nat, t: int, k: int) -> int {
    spec_binom(n, k as nat) * fx_mul_spec(
        fx_pow_spec(FX_ONE - t, (n - k) as nat),
        fx_pow_spec(t, k as nat),
    )
}

/// The contribution of control point `k`: the point, shifted by the
/// origin, scaled by its Bernstein weight.
pub open spec fn bez_term(pts: Seq<Vector>, o: Vector, t: int, k: int) -> (int, int) {
    let w = bez_weight((pts.len() - 1) as nat, t, k);
    (fx_mul_spec(pts[k].x + o.x, w), fx_mul_spec(pts[k].y + o.y, w))
}

/// The sum of the first `k` Bernstein terms.
pub open spec fn bez_sum(pts: Seq<Vector>, o: Vector, t: int, k: int) -> (int, int)
    decreases k,
{
    if k <= 0 {
        (0, 0)
    } else {
        let s = bez_sum(pts, o, t, k - 1);
        let q = bez_term(pts, o, t, k - 1);
        (s.0 + q.0, s.1 + q.1)
    }
}

/// Where a curve with these control points and origin passes at
/// parameter `t`: the full Bernstein sum, or the origin itself for a
/// degenerate curve without control points.
pub open spec fn bez_trace_pts(pts: Seq<Vector>, o: Vector, t: int) -> (int, int) {
    if pts.len() == 0 {
        (o.x as int, o.y as int)
    } else {
        bez_sum(pts, o, t, pts.len() as int)
    }
}

/// Where the curve passes at parameter `t`.
pub open spec fn bezier_trace_spec(b: Bezier, t: int) -> (int, int) {
    bez_trace_pts(b.points@, b.origin, t)
}

impl Bezier {
    /// Trace this Bezier curve: evaluate the Bernstein sum at `t`.
    pub fn trace(&self, t: i64) -> (v: Vector)
        requires
            self.wf(),
            0 <= t <= FX_ONE,
        ensures
            (v.x as int, v.y as int) == bezier_trace_spec(*self, t as int),
            -TRACE_MAX <= v.x <= TRACE_MAX,
            -TRACE_MAX <= v.y <= TRACE_MAX,
    {
        if self.points.len() == 0 {
            return Vector { x: self.origin.x, y: self.origin.y };
        }
        let order: u32 = (self.points.len() - 1) as u32;
        let mut sx: i64 = 0;
        let mut sy: i64 = 0;
        let mut k: usize = 0;
        while k < self.points.len()
            invariant
                self.wf(),
                0 <= t <= FX_ONE,
                1 <= self.points@.len(),
                order == self.points@.len() - 1,
                k <= self.points@.len(),
                (sx as int, sy as int) == bez_sum(self.points@, self.origin, t as int, k as int),
                -(k as i64) * TERM_MAX <= sx <= (k as i64) * TERM_MAX,
                -(k as i64) * TERM_MAX <= sy <= (k as i64) * TERM_MAX,
            decreases self.points@.len() - k,
        {
            let c: u64 = binom(order, k as u32);
            proof {
                lemma_binom_value_bound(order as nat);
            }
            let pa: i64 = fx_pow(FX_ONE - t, order - k as u32);
            let pb: i64 = fx_pow(t, k as u32);
            proof {
                lemma_abs_mul_le(pa as int, pb as int, FX_ONE as int, FX_ONE as int);
            }
            let wq: i64 = fx_mul(pa, pb);
            proof {
                vstd::arithmetic::div_mod::lemma_div_pos_is_pos(pa as int * pb as int, 65536);
                lemma_fx_div_bound(pa as int * pb as int, FX_ONE as int);
                assert(0 <= wq <= 65536);
                assert(c as int == spec_binom(order as nat, k as nat));
                assert(c <= 4096);
                lemma_abs_mul_le(c as int, wq as int, 4096, 65536);
            }
            let w: i64 = (c as i64) * wq;
            let cx: i64 = self.points[k].x + self.origin.x;
            let cy: i64 = self.points[k].y + self.origin.y;
            proof {
                lemma_abs_mul_le(cx as int, w as int, 0x1000_0000, 0x1000_0000);
                lemma_abs_mul_le(cy as int, w as int, 0x1000_0000, 0x1000_0000);
            }
            let tx: i64 = fx_mul(cx, w);
            let ty: i64 = fx_mul(cy, w);
            proof {
                lemma_fx_div_bound(cx as int * w as int, TERM_MAX as int);
                lemma_fx_div_bound(cy as int * w as int, TERM_MAX as int);
                assert(bez_weight(order as nat, t as int, k as int) == w) by {
                    assert(c as int * wq as int == (c as i64) as int * wq as int);
                }
                assert(bez_sum(self.points@, self.origin, t as int, k as int + 1) == (
                    sx + tx,
                    sy + ty,
                ));
            }
            sx = sx + tx;
            sy = sy + ty;
            k = k + 1;
        }
        proof {
            assert((k as i64) * TERM_MAX <= 13 * TERM_MAX);
        }
        Vector { x: sx, y: sy }
    }
}

/// Binomial coefficients of the orders a well-formed curve allows fit
/// comfortably in the weight arithmetic.
proof fn lemma_binom_value_bound(n: nat)
    requires
        n <= 12,
    ensures
        forall|k: nat| #[trigger] spec_binom(n, k) <= 4096,
{
    assert forall|k: nat| #[trigger] spec_binom(n, k) <= 4096 by {
        crate::binomial::lemma_binom_le_pow2(n, k);
        if n < 12 {
            vstd::arithmetic::power2::lemma_pow2_strictly_increases(n, 12);
        }
        assert(vstd::arithmetic::power2::pow2(12) == 4096) by {
            vstd::arithmetic::power2::lemma2_to64();
        }
    }
}

/// The trace of a curve with at least one control point starts at its
/// first control point, shifted by the origin.
pub proof fn lemma_trace_at_zero(pts: Seq<Vector>, o: Vector)
    requires
        pts.len() >= 1,
    ensures
        bez_trace_pts(pts, o, 0) == (pts[0].x + o.x as int, pts[0].y + o.y as int),
{
    lemma_first_weight_unit((pts.len() - 1) as nat);
    lemma_fx_mul_unit(pts[0].x + o.x);
    lemma_fx_mul_unit(pts[0].y + o.y);
    lemma_sum_at_zero(pts, o, pts.len() as int);
}

/// At parameter zero every Bernstein weight past the first vanishes,
/// so the partial sums collapse to the first term.
proof fn lemma_sum_at_zero(pts: Seq<Vector>, o: Vector, k: int)
    requires
        1 <= k <= pts.len(),
    ensures
        bez_sum(pts, o, 0, k) == bez_term(pts, o, 0, 0),
    decreases k,
{
    let n = (pts.len() - 1) as nat;
    if k == 1 {
        assert(bez_sum(pts, o, 0, 1) == (
            bez_sum(pts, o, 0, 0).0 + bez_term(pts, o, 0, 0).0,
            bez_sum(pts, o, 0, 0).1 + bez_term(pts, o, 0, 0).1,
        ));
        assert(bez_sum(pts, o, 0, 0) == (0int, 0int));
    } else {
        lemma_sum_at_zero(pts, o, k - 1);
        lemma_fx_pow_zero((k - 1) as nat);
        lemma_fx_mul_zero(fx_pow_spec(FX_ONE - 0, (n - (k - 1)) as nat));
        assert(bez_weight(n, 0, k - 1) == spec_binom(n, (k - 1) as nat) * 0);
        lemma_fx_mul_zero(pts[k - 1].x + o.x);
        lemma_fx_mul_zero(pts[k - 1].y + o.y);
        assert(bez_term(pts, o, 0, k - 1) == (0int, 0int));
        assert(bez_sum(pts, o, 0, k) == (
            bez_sum(pts, o, 0, k - 1).0 + bez_term(pts, o, 0, k - 1).0,
            bez_sum(pts, o, 0, k - 1).1 + bez_term(pts, o, 0, k - 1).1,
        ));
    }
}

/// The weight of the first control point at parameter zero is one.
proof fn lemma_first_weight_unit(n: nat)
    ensures
        bez_weight(n, 0, 0) == FX_ONE,
{
    lemma_fx_pow_one(n);
    assert(fx_pow_spec(0, 0) == FX_ONE);
    assert(fx_mul_spec(FX_ONE as int, FX_ONE as int) == FX_ONE) by {
        vstd::arithmetic::div_mod::lemma_div_multiples_vanish(65536, 65536);
    }
    lemma_binom_ends(n);
}

/// The trace of a curve with at least one control point ends at its
/// last control point, shifted by the origin.
pub proof fn lemma_trace_at_one(pts: Seq<Vector>, o: Vector)
    requires
        pts.len() >= 1,
    ensures
        bez_trace_pts(pts, o, FX_ONE as int) == (
            pts[pts.len() - 1].x + o.x as int,
            pts[pts.len() - 1].y + o.y as int,
        ),
{
    let n = pts.len() as int;
    lemma_sum_at_one_prefix(pts, o, n - 1);
    lemma_last_weight_unit((n - 1) as nat);
    lemma_fx_mul_unit(pts[n - 1].x + o.x);
    lemma_fx_mul_unit(pts[n - 1].y + o.y);
    assert(bez_sum(pts, o, FX_ONE as int, n) == (
        bez_sum(pts, o, FX_ONE as int, n - 1).0 + bez_term(pts, o, FX_ONE as int, n - 1).0,
        bez_sum(pts, o, FX_ONE as int, n - 1).1 + bez_term(pts, o, FX_ONE as int, n - 1).1,
    ));
}

/// At parameter one every Bernstein weight before the last vanishes.
proof fn lemma_sum_at_one_prefix(pts: Seq<Vector>, o: Vector, k: int)
    requires
        0 <= k <= pts.len() - 1,
    ensures
        bez_sum(pts, o, FX_ONE as int, k) == (0int, 0int),
    decreases k,
{
    let n = (pts.len() - 1) as nat;
    if k > 0 {
        lemma_sum_at_one_prefix(pts, o, k - 1);
        lemma_fx_pow_zero((n - (k - 1)) as nat);
        lemma_fx_mul_zero(fx_pow_spec(FX_ONE as int, (k - 1) as nat));
        assert(fx_mul_spec(
            fx_pow_spec(FX_ONE - FX_ONE, (n - (k - 1)) as nat),
            fx_pow_spec(FX_ONE as int, (k - 1) as nat),
        ) == 0);
        assert(bez_weight(n, FX_ONE as int, k - 1) == spec_binom(n, (k - 1) as nat) * 0);
        lemma_fx_mul_zero(pts[k - 1].x + o.x);
        lemma_fx_mul_zero(pts[k - 1].y + o.y);
        assert(bez_term(pts, o, FX_ONE as int, k - 1) == (0int, 0int));
        assert(bez_sum(pts, o, FX_ONE as int, k) == (
            bez_sum(pts, o, FX_ONE as int, k - 1).0 + bez_term(pts, o, FX_ONE as int, k - 1).0,
            bez_sum(pts, o, FX_ONE as int, k - 1).1 + bez_term(pts, o, FX_ONE as int, k - 1).1,
        ));
    }
}

/// The weight of the last control point at parameter one is one.
proof fn lemma_last_weight_unit(n: nat)
    ensures
        bez_weight(n, FX_ONE as int, n as int) == FX_ONE,
{
    lemma_fx_pow_one(n);
    assert(fx_pow_spec(FX_ONE - FX_ONE, (n - n) as nat) == FX_ONE);
    assert(fx_mul_spec(FX_ONE as int, FX_ONE as int) == FX_ONE) by {
        vstd::arithmetic::div_mod::lemma_div_multiples_vanish(65536, 65536);
    }
    lemma_binom_ends(n);
}

/// The parameter of sample `j`: `j / SAMPLES` on the fixed-point grid.
pub open spec fn sample_t(j: int) -> int {
    j * FX_ONE / (SAMPLES as int)
}

/// Compute the parameter of sample `j`.
pub fn sample_t_exec(j: u32) -> (t: i64)
    requires
        j <= SAMPLES,
    ensures
        t == sample_t(j as int),
        0 <= t <= FX_ONE,
{
    let t: u64 = ((j as u64) * 65536) / 10000;
    proof {
        vstd::arithmetic::div_mod::lemma_div_pos_is_pos(j as int * 65536, 10000);
        vstd::arithmetic::div_mod::lemma_div_is_ordered(j as int * 65536, 10000int * 65536int, 10000);
        vstd::arithmetic::div_mod::lemma_div_multiples_vanish(65536, 10000);
    }
    t as i64
}

/// The pixel sample `j` of a curve lands on, when the curve is drawn
/// shifted by `loc` on a `w x h` frame.
pub open spec fn curve_px(
    pts: Seq<Vector>,
    o: Vector,
    loc: Vector,
    w: int,
    h: int,
    j: int,
) -> (int, int) {
    let q = bez_trace_pts(pts, o, sample_t(j));
    (px_spec(loc.x + q.0, w), py_spec(loc.y + q.1, h))
}

/// The pixels of the first `n` samples of a curve.
pub open spec fn curve_px_set(
    pts: Seq<Vector>,
    o: Vector,
    loc: Vector,
    w: int,
    h: int,
    n: int,
) -> Set<(int, int)> {
    Set::<(int, int)>::new(
        |p: (int, int)| exists|j: int| 0 <= j < n && p == curve_px(pts, o, loc, w, h, j),
    )
}

/// One more sample's pixel extends the sample pixel set by one.
proof fn lemma_curve_px_set_step(
    pts: Seq<Vector>,
    o: Vector,
    loc: Vector,
    w: int,
    h: int,
    n: int,
)
    requires
        n >= 0,
    ensures
        curve_px_set(pts, o, loc, w, h, n).insert(curve_px(pts, o, loc, w, h, n))
            == curve_px_set(pts, o, loc, w, h, n + 1),
{
    let s0 = curve_px_set(pts, o, loc, w, h, n).insert(curve_px(pts, o, loc, w, h, n));
    let s1 = curve_px_set(pts, o, loc, w, h, n + 1);
    assert forall|p: (int, int)| s0.contains(p) implies s1.contains(p) by {
        if p == curve_px(pts, o, loc, w, h, n) {
            assert(0 <= n < n + 1 && p == curve_px(pts, o, loc, w, h, n));
        }
    }
    assert forall|p: (int, int)| s1.contains(p) implies s0.contains(p) by {
        let j = choose|j: int| 0 <= j < n + 1 && p == curve_px(pts, o, loc, w, h, j);
        if j < n {
            assert(curve_px_set(pts, o, loc, w, h, n).contains(p));
        }
    }
    assert(s0 =~= s1);
}

impl Bezier {
    /// Draw this curve onto the frame, its trace shifted by `loc`:
    /// each of the `SAMPLES + 1` parameter samples paints one pixel of
    /// the curve's color, one pixel wide.
    pub fn draw(&self, loc: Vector, img: &mut Frame)
        requires
            self.wf(),
            -DRAW_LOC_MAX <= loc.x <= DRAW_LOC_MAX,
            -DRAW_LOC_MAX <= loc.y <= DRAW_LOC_MAX,
            frame_wf(*old(img)),
        ensures
            frame_wf(*final(img)),
            img_dims(*final(img)) == img_dims(*old(img)),
            img_pixels(*final(img)) == stamped(
                img_pixels(*old(img)),
                img_dims(*old(img)).0,
                img_dims(*old(img)).1,
                curve_px_set(
                    self.points@,
                    self.origin,
                    loc,
                    img_dims(*old(img)).0 as int,
                    img_dims(*old(img)).1 as int,
                    SAMPLES + 1,
                ),
                self.color,
            ),
    {
        let w: u32 = frame_width(img);
        let h: u32 = frame_height(img);
        let ghost base = img_pixels(*img);
        if w == 0 || h == 0 {
            proof {
                lemma_stamped_all_out(base, w as nat, h as nat, curve_px_set(
                    self.points@,
                    self.origin,
                    loc,
                    w as int,
                    h as int,
                    SAMPLES + 1,
                ), self.color);
            }
            return;
        }
        let mut j: u32 = 0;
        while j <= SAMPLES
            invariant
                self.wf(),
                -DRAW_LOC_MAX <= loc.x <= DRAW_LOC_MAX,
                -DRAW_LOC_MAX <= loc.y <= DRAW_LOC_MAX,
                w >= 1,
                h >= 1,
                j <= SAMPLES + 1,
                w as nat == img_dims(*img).0,
                h as nat == img_dims(*img).1,
                img_dims(*img) == img_dims(*old(img)),
                frame_wf(*img),
                base == img_pixels(*old(img)),
                img_pixels(*img) == stamped(base, w as nat, h as nat, curve_px_set(
                    self.points@,
                    self.origin,
                    loc,
                    w as int,
                    h as int,
                    j as int,
                ), self.color),
            decreases SAMPLES + 1 - j,
        {
            let t: i64 = sample_t_exec(j);
            let q: Vector = self.trace(t);
            let pos: Vector = Vector { x: loc.x + q.x, y: loc.y + q.y };
            let (px, py) = pos.to_pixels(w, h);
            let ghost s_before = curve_px_set(
                self.points@,
                self.origin,
                loc,
                w as int,
                h as int,
                j as int,
            );
            frame_put(img, px, py, self.color);
            proof {
                assert((px as int, py as int) == curve_px(
                    self.points@,
                    self.origin,
                    loc,
                    w as int,
                    h as int,
                    j as int,
                ));
                lemma_stamped_insert(base, w as nat, h as nat, s_before, self.color, (px as int, py as int));
                lemma_curve_px_set_step(self.points@, self.origin, loc, w as int, h as int, j as int);
            }
            j = j + 1;
        }
    }
}

/// Stamping any set onto a frame with an empty pixel grid changes
/// nothing.
pub proof fn lemma_stamped_all_out(
    base: Map<(int, int), (u8, u8, u8)>,
    w: nat,
    h: nat,
    s: Set<(int, int)>,
    c: Color,
)
    requires
        w == 0 || h == 0,
        base.dom() == crate::frame::full_rect(w, h),
    ensures
        stamped(base, w, h, s, c) == base,
{
    assert(stamped(base, w, h, s, c) =~= base);
}

} // verus!
