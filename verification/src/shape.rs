//! A shape made from Bezier curves.
//!
//! A shape strings its curves together under one origin; a single
//! trace parameter in `[0, 1]` spans all of them, split evenly into
//! one segment per curve.

use vstd::prelude::*;

use crate::bezier::Bezier;
use crate::bezier::MAX_THICKNESS;
use crate::bezier::SAMPLES;
use crate::bezier::bez_trace_pts;
use crate::bezier::curve_px_set;
use crate::color::Color;
use crate::fixed::FX_ONE;
use crate::frame::Frame;
use crate::frame::frame_wf;
use crate::frame::img_dims;
use crate::frame::img_pixels;
use crate::frame::stamped;
use crate::vector::VEC_MAX;
use crate::vector::Vector;

verus! {

/// Most curves a well-formed shape may hold.
pub const MAX_CURVES: usize = 4096;

/// Magnitude bound on the trace of a well-formed shape.
pub const SHAPE_TRACE_MAX: i64 = 0x2000_0000_0000;

/// The defined geometry error conditions: all of them are detected
/// eagerly at construction, never in a pixel loop.
#[derive(Clone, Copy, PartialEq, Eq, Structural, Debug)]
pub enum GeometryError {
    /// A shape was given no curves at all.
    EmptyGeometry,
    /// An interpolation was given operands of differing topology.
    GeometryMismatch,
}

/// The view of one curve: its control points, origin, color and
/// thickness, all by mathematical value.
pub open spec fn cview(b: Bezier) -> (Seq<Vector>, Vector, Color, int) {
    (b.points@, b.origin, b.color, b.thickness as int)
}

/// A shape made from Bezier curves, sharing an origin; color and
/// thickness are inherited from the first curve at construction.
#[derive(Clone, Debug)]
pub struct Shape {
    /// Curves contained in this shape, in trace order.
    pub curves: Vec<Bezier>,
    /// Origin of this shape.
    pub origin: Vector,
    /// Color of this shape.
    pub color: Color,
    /// Thickness of this shape.
    pub thickness: i32,
}

/// The view of a shape's curves.
pub open spec fn sview(s: Shape) -> Seq<(Seq<Vector>, Vector, Color, int)> {
    s.curves@.map_values(|c: Bezier| cview(c))
}

impl Shape {
    /// A well-formed shape holds at least one well-formed curve, not
    /// too many, under a well-formed origin.
    pub open spec fn wf(self) -> bool {
        &&& 1 <= self.curves@.len() <= MAX_CURVES
        &&& (forall|i: int| 0 <= i < self.curves@.len() ==> self.curves@[i].wf())
        &&& self.origin.wf()
        &&& -MAX_THICKNESS <= self.thickness <= MAX_THICKNESS
    }

    /// Construct a new shape of Bezier curves; its color and thickness
    /// are taken from the first curve.  A shape needs at least one
    /// curve: an empty list is the empty-geometry error.
    pub fn new(curves: Vec<Bezier>, origin: Vector) -> (r: Result<Shape, GeometryError>)
        ensures
            r is Ok <==> curves@.len() > 0,
            r matches Ok(s) ==> {
                &&& s.curves@ == curves@
                &&& s.origin == origin
                &&& s.color == curves@[0].color
                &&& s.thickness == curves@[0].thickness
            },
            r matches Err(e) ==> e == GeometryError::EmptyGeometry,
    {
        if curves.len() == 0 {
            return Err(GeometryError::EmptyGeometry);
        }
        let color = curves[0].color;
        let thickness = curves[0].thickness;
        Ok(Shape { curves, origin, color, thickness })
    }

    /// An owned copy with the same curves, origin, color and
    /// thickness.
    pub fn duplicate(&self) -> (s: Shape)
        ensures
            sview(s) == sview(*self),
            s.curves@.len() == self.curves@.len(),
            s.origin == self.origin,
            s.color == self.color,
            s.thickness == self.thickness,
            self.wf() ==> s.wf(),
    {
        let mut curves: Vec<Bezier> = Vec::new();
        let mut i: usize = 0;
        while i < self.curves.len()
            invariant
                i <= self.curves@.len(),
                curves@.len() == i,
                forall|j: int| 0 <= j < i ==> cview(curves@[j]) == cview(self.curves@[j]),
                forall|j: int| 0 <= j < i ==> (self.curves@[j].wf() ==> curves@[j].wf()),
            decreases self.curves@.len() - i,
        {
            curves.push(self.curves[i].duplicate());
            i = i + 1;
        }
        let s = Shape {
            curves,
            origin: self.origin,
            color: self.color,
            thickness: self.thickness,
        };
        proof {
            assert(sview(s) =~= sview(*self)) by {
                assert(forall|j: int|
                    0 <= j < s.curves@.len() ==> sview(s)[j] == cview(s.curves@[j])
                        && sview(*self)[j] == cview(self.curves@[j]));
            }
        }
        s
    }
}

/// Which segment the trace parameter `t` falls in, over `n` segments:
/// `floor(t * n)`, with the right endpoint folded into the last
/// segment.
pub open spec fn shape_idx(n: int, t: int) -> int {
    if t * n / (FX_ONE as int) >= n {
        n - 1
    } else {
        t * n / (FX_ONE as int)
    }
}

/// The intra-segment parameter: the fractional part of `t * n`, with
/// the right endpoint reaching one.
pub open spec fn shape_tc(n: int, t: int) -> int {
    if t * n / (FX_ONE as int) >= n {
        FX_ONE as int
    } else {
        (t * n) % (FX_ONE as int)
    }
}

/// Where a shape with these curve views and this origin passes at
/// trace parameter `t`.
pub open spec fn shape_trace_cvs(
    cvs: Seq<(Seq<Vector>, Vector, Color, int)>,
    o: Vector,
    t: int,
) -> (int, int) {
    if cvs.len() == 0 {
        (o.x as int, o.y as int)
    } else {
        let i = shape_idx(cvs.len() as int, t);
        let q = bez_trace_pts(cvs[i].0, cvs[i].1, shape_tc(cvs.len() as int, t));
        (o.x + q.0, o.y + q.1)
    }
}

/// Where the shape passes at trace parameter `t`.
pub open spec fn shape_trace_spec(s: Shape, t: int) -> (int, int) {
    shape_trace_cvs(sview(s), s.origin, t)
}

impl Shape {
    /// Trace this shape: pick the segment `t` falls in and trace the
    /// corresponding curve at the intra-segment parameter.
    pub fn trace(&self, t: i64) -> (v: Vector)
        requires
            self.wf(),
            0 <= t <= FX_ONE,
        ensures
            (v.x as int, v.y as int) == shape_trace_spec(*self, t as int),
            -SHAPE_TRACE_MAX <= v.x <= SHAPE_TRACE_MAX,
            -SHAPE_TRACE_MAX <= v.y <= SHAPE_TRACE_MAX,
    {
        let n: usize = self.curves.len();
        proof {
            crate::fixed::lemma_abs_mul_le(t as int, n as int, 65536, 4096);
            assert(0 <= (t as int) * (n as int)) by (nonlinear_arith)
                requires 0 <= t && 0 <= n,
            ;
        }
        let u: i64 = t * (n as i64);
        let ui: u64 = u as u64;
        proof {
            vstd::arithmetic::div_mod::lemma_div_pos_is_pos(u as int, 65536);
            vstd::arithmetic::div_mod::lemma_div_is_ordered(u as int, 65536int * 4096int, 65536);
            vstd::arithmetic::div_mod::lemma_div_multiples_vanish(4096, 65536);
            vstd::arithmetic::div_mod::lemma_mod_bound(u as int, 65536);
        }
        let mut idx: usize = (ui / 65536) as usize;
        let mut tc: i64 = (ui % 65536) as i64;
        if idx >= n {
            idx = n - 1;
            tc = FX_ONE;
        }
        let q: Vector = self.curves[idx].trace(tc);
        proof {
            assert(sview(*self)[idx as int] == cview(self.curves@[idx as int]));
        }
        Vector { x: self.origin.x + q.x, y: self.origin.y + q.y }
    }
}

/// The shape's trace at parameter zero is the first curve's trace at
/// zero, shifted by the shape's origin.
pub proof fn lemma_shape_trace_at_zero(
    cvs: Seq<(Seq<Vector>, Vector, Color, int)>,
    o: Vector,
)
    requires
        cvs.len() >= 1,
    ensures
        shape_trace_cvs(cvs, o, 0) == (
            o.x + bez_trace_pts(cvs[0].0, cvs[0].1, 0).0,
            o.y + bez_trace_pts(cvs[0].0, cvs[0].1, 0).1,
        ),
{
    let n = cvs.len() as int;
    assert(0 * n == 0) by (nonlinear_arith);
    assert(0int / 65536 == 0) by {
        vstd::arithmetic::div_mod::lemma_div_of0(65536);
    }
    assert(0int % 65536 == 0) by {
        vstd::arithmetic::div_mod::lemma_small_mod(0, 65536);
    }
    assert(shape_idx(n, 0) == 0);
    assert(shape_tc(n, 0) == 0);
}

/// The shape's trace at parameter one is the last curve's trace at
/// one, shifted by the shape's origin.
pub proof fn lemma_shape_trace_at_one(
    cvs: Seq<(Seq<Vector>, Vector, Color, int)>,
    o: Vector,
)
    requires
        cvs.len() >= 1,
    ensures
        shape_trace_cvs(cvs, o, FX_ONE as int) == (
            o.x + bez_trace_pts(cvs[cvs.len() - 1].0, cvs[cvs.len() - 1].1, FX_ONE as int).0,
            o.y + bez_trace_pts(cvs[cvs.len() - 1].0, cvs[cvs.len() - 1].1, FX_ONE as int).1,
        ),
{
    let n = cvs.len() as int;
    assert((FX_ONE as int) * n / (FX_ONE as int) == n) by {
        vstd::arithmetic::div_mod::lemma_div_multiples_vanish(n, 65536);
        assert((FX_ONE as int) * n == 65536 * n);
    }
    assert(shape_idx(n, FX_ONE as int) == n - 1);
    assert(shape_tc(n, FX_ONE as int) == FX_ONE);
}

/// The pixel grid after drawing the first `i` curves of a shape,
/// shifted by `loc`, onto `base`.
pub open spec fn shape_draw_upto(
    cvs: Seq<(Seq<Vector>, Vector, Color, int)>,
    loc: Vector,
    w: nat,
    h: nat,
    base: Map<(int, int), (u8, u8, u8)>,
    i: int,
) -> Map<(int, int), (u8, u8, u8)>
    decreases i,
{
    if i <= 0 {
        base
    } else {
        stamped(
            shape_draw_upto(cvs, loc, w, h, base, i - 1),
            w,
            h,
            curve_px_set(cvs[i - 1].0, cvs[i - 1].1, loc, w as int, h as int, SAMPLES + 1),
            cvs[i - 1].2,
        )
    }
}

impl Shape {
    /// Draw this shape: draw each curve in order, each shifted by the
    /// shape's origin plus the placement.
    pub fn draw(&self, placement: Vector, img: &mut Frame)
        requires
            self.wf(),
            placement.wf(),
            frame_wf(*old(img)),
        ensures
            frame_wf(*final(img)),
            img_dims(*final(img)) == img_dims(*old(img)),
            img_pixels(*final(img)) == shape_draw_upto(
                sview(*self),
                Vector { x: (self.origin.x + placement.x) as i64, y: (self.origin.y + placement.y) as i64 },
                img_dims(*old(img)).0,
                img_dims(*old(img)).1,
                img_pixels(*old(img)),
                sview(*self).len() as int,
            ),
    {
        let loc = Vector { x: self.origin.x + placement.x, y: self.origin.y + placement.y };
        let ghost w = img_dims(*old(img)).0;
        let ghost h = img_dims(*old(img)).1;
        let ghost base = img_pixels(*old(img));
        let mut i: usize = 0;
        while i < self.curves.len()
            invariant
                self.wf(),
                -2 * VEC_MAX <= loc.x <= 2 * VEC_MAX,
                -2 * VEC_MAX <= loc.y <= 2 * VEC_MAX,
                i <= self.curves@.len(),
                frame_wf(*img),
                img_dims(*img) == img_dims(*old(img)),
                w == img_dims(*old(img)).0,
                h == img_dims(*old(img)).1,
                base == img_pixels(*old(img)),
                img_pixels(*img) == shape_draw_upto(sview(*self), loc, w, h, base, i as int),
            decreases self.curves@.len() - i,
        {
            self.curves[i].draw(loc, img);
            proof {
                assert(sview(*self)[i as int] == cview(self.curves@[i as int]));
            }
            i = i + 1;
        }
    }
}


impl Bezier {
    /// Turn this Bezier curve into a shape of its own: a one-curve
    /// shape at the zero origin.
    pub fn get_shape(&self) -> (s: Shape)
        ensures
            s.origin == (Vector { x: 0i64, y: 0i64 }),
            s.color == self.color,
            s.thickness == self.thickness,
            sview(s).len() == 1,
            sview(s)[0] == cview(*self),
            self.wf() ==> s.wf(),
    {
        let mut curves: Vec<Bezier> = Vec::new();
        curves.push(self.duplicate());
        let s = Shape {
            curves,
            origin: Vector { x: 0, y: 0 },
            color: self.color,
            thickness: self.thickness,
        };
        proof {
            assert(sview(s)[0] == cview(s.curves@[0]));
        }
        s
    }
}


impl Shape {
    /// Construct a static animation from this shape: it shows the
    /// shape unchanged at every progress.
    pub fn get_display(&self) -> (a: crate::animation::Animation)
        ensures
            a matches crate::animation::Animation::Display(s2) && sview(s2) == sview(*self)
                && s2.origin == self.origin && s2.color == self.color && s2.thickness
                == self.thickness,
            self.wf() ==> a.wf(),
    {
        crate::animation::Animation::Display(self.duplicate())
    }

    /// Interpolate this shape into another: an animation that morphs
    /// this shape into `other` as progress runs.  The shapes must
    /// share one topology.
    pub fn into(&self, other: Shape) -> (r: Result<
        crate::animation::Animation,
        GeometryError,
    >)
        ensures
            r is Ok <==> crate::interpolate::topology_match(sview(*self), sview(other)),
            r matches Ok(a) ==> (a matches crate::animation::Animation::Interpolate(ip)
                && sview(ip.one) == sview(*self) && sview(ip.two) == sview(other)
                && ip.one.origin == self.origin && ip.two.origin == other.origin
                && ip.one.color == self.color && ip.two.color == other.color),
            r matches Err(e) ==> e == GeometryError::GeometryMismatch,
            (self.wf() && other.wf() && r is Ok) ==> (r matches Ok(a) && a.wf()),
    {
        match crate::interpolate::Interpolate::new(self.duplicate(), other) {
            Ok(ip) => Ok(crate::animation::Animation::Interpolate(ip)),
            Err(e) => Err(e),
        }
    }

    /// Construct a tracing animation from this shape: it reveals the
    /// shape's outline as progress runs.
    pub fn get_trace(&self) -> (a: crate::animation::Animation)
        ensures
            a matches crate::animation::Animation::Trace(t) && sview(t.shape) == sview(*self)
                && t.shape.origin == self.origin && t.shape.color == self.color
                && t.shape.thickness == self.thickness,
            self.wf() ==> a.wf(),
    {
        crate::animation::Animation::Trace(crate::trace::Trace { shape: self.duplicate() })
    }
}

} // verus!
