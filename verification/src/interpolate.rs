//! Interpolation between two shapes.
//!
//! One shape smoothly becomes another: at progress `p` each traced
//! point is the linear blend of the two shapes' traces, and the color
//! is the per-channel blend of the two shapes' colors.

use vstd::prelude::*;

use crate::bezier::SAMPLES;
use crate::bezier::sample_t;
use crate::bezier::sample_t_exec;
use crate::color::Color;
use crate::color::color_lerp;
use crate::color::color_lerp_spec;
use crate::fixed::FX_HALF;
use crate::fixed::FX_ONE;
use crate::fixed::fx_lerp;
use crate::fixed::fx_lerp_spec;
use crate::fixed::lemma_lerp_at_half;
use crate::fixed::lemma_lerp_at_one;
use crate::fixed::lemma_lerp_at_zero;
use crate::fixed::lemma_lerp_bounds;
use crate::frame::Frame;
use crate::frame::frame_height;
use crate::frame::frame_put;
use crate::frame::frame_wf;
use crate::frame::frame_width;
use crate::frame::img_dims;
use crate::frame::img_pixels;
use crate::frame::lemma_stamped_insert;
use crate::frame::stamped;
use crate::shape::GeometryError;
use crate::shape::Shape;
use crate::shape::shape_trace_cvs;
use crate::shape::sview;
use crate::vector::Vector;
use crate::vector::px_spec;
use crate::vector::py_spec;

verus! {

/// Two curve lists have the same topology when they have the same
/// curve count and the same control-point count, curve for curve.
pub open spec fn topology_match(
    a: Seq<(Seq<Vector>, Vector, Color, int)>,
    b: Seq<(Seq<Vector>, Vector, Color, int)>,
) -> bool {
    &&& a.len() == b.len()
    &&& (forall|i: int| 0 <= i < a.len() ==> (#[trigger] a[i]).0.len() == b[i].0.len())
}

/// An interpolation animation: shape `one` smoothly becomes shape
/// `two`.
#[derive(Clone, Debug)]
pub struct Interpolate {
    /// The shape shown at progress zero.
    pub one: Shape,
    /// The shape shown at progress one.
    pub two: Shape,
}

impl Interpolate {
    /// Both operands are well formed and share one topology.
    pub open spec fn wf(self) -> bool {
        &&& self.one.wf()
        &&& self.two.wf()
        &&& topology_match(sview(self.one), sview(self.two))
    }

    /// Construct a new interpolation.  The operands must have the
    /// same topology: the same curve count and, curve for curve, the
    /// same control-point count; anything else is the geometry
    /// mismatch error.
    pub fn new(one: Shape, two: Shape) -> (r: Result<Interpolate, GeometryError>)
        ensures
            r is Ok <==> topology_match(sview(one), sview(two)),
            r matches Ok(ip) ==> ip == (Interpolate { one, two }),
            r matches Err(e) ==> e == GeometryError::GeometryMismatch,
    {
        if one.curves.len() != two.curves.len() {
            return Err(GeometryError::GeometryMismatch);
        }
        let mut i: usize = 0;
        while i < one.curves.len()
            invariant
                one.curves@.len() == two.curves@.len(),
                i <= one.curves@.len(),
                forall|j: int|
                    0 <= j < i ==> (#[trigger] sview(one)[j]).0.len() == sview(two)[j].0.len(),
            decreases one.curves@.len() - i,
        {
            if one.curves[i].points.len() != two.curves[i].points.len() {
                proof {
                    assert(sview(one)[i as int].0.len() != sview(two)[i as int].0.len());
                }
                return Err(GeometryError::GeometryMismatch);
            }
            proof {
                assert(sview(one)[i as int].0.len() == sview(two)[i as int].0.len());
            }
            i = i + 1;
        }
        Ok(Interpolate { one, two })
    }

    /// An owned copy with the same two shapes.
    pub fn duplicate(&self) -> (ip: Interpolate)
        ensures
            sview(ip.one) == sview(self.one),
            sview(ip.two) == sview(self.two),
            ip.one.origin == self.one.origin,
            ip.two.origin == self.two.origin,
            ip.one.color == self.one.color,
            ip.two.color == self.two.color,
            ip.one.thickness == self.one.thickness,
            ip.two.thickness == self.two.thickness,
            self.wf() ==> ip.wf(),
    {
        Interpolate { one: self.one.duplicate(), two: self.two.duplicate() }
    }
}

/// A linear interpolation between two shapes, frozen at one progress
/// value: the snapshot an interpolation animation paints.
#[derive(Clone, Debug)]
pub struct InterpolatedCurve {
    /// The shape shown at progress zero.
    pub one: Shape,
    /// The shape shown at progress one.
    pub two: Shape,
    /// The interpolation progress, in `[0, 1]`.
    pub progress: i64,
}

impl InterpolatedCurve {
    /// Construct a new interpolated snapshot.
    pub fn new(one: Shape, two: Shape, progress: i64) -> (r: InterpolatedCurve)
        ensures
            r == (InterpolatedCurve { one, two, progress }),
    {
        InterpolatedCurve { one, two, progress }
    }

    /// Both shapes are well formed and the progress is a progress.
    pub open spec fn wf(self) -> bool {
        &&& self.one.wf()
        &&& self.two.wf()
        &&& 0 <= self.progress <= FX_ONE
    }
}

/// The blended point of sample `j`: both shapes' traces, each shifted
/// by `loc`, blended at progress `p`.
pub open spec fn blend_pt(
    cvs1: Seq<(Seq<Vector>, Vector, Color, int)>,
    o1: Vector,
    cvs2: Seq<(Seq<Vector>, Vector, Color, int)>,
    o2: Vector,
    loc: Vector,
    p: int,
    j: int,
) -> (int, int) {
    let q1 = shape_trace_cvs(cvs1, o1, sample_t(j));
    let q2 = shape_trace_cvs(cvs2, o2, sample_t(j));
    (
        fx_lerp_spec(loc.x + q1.0, loc.x + q2.0, p),
        fx_lerp_spec(loc.y + q1.1, loc.y + q2.1, p),
    )
}

/// The pixel that blended sample `j` lands on.
pub open spec fn blend_px(
    cvs1: Seq<(Seq<Vector>, Vector, Color, int)>,
    o1: Vector,
    cvs2: Seq<(Seq<Vector>, Vector, Color, int)>,
    o2: Vector,
    loc: Vector,
    p: int,
    w: int,
    h: int,
    j: int,
) -> (int, int) {
    let m = blend_pt(cvs1, o1, cvs2, o2, loc, p, j);
    (px_spec(m.0, w), py_spec(m.1, h))
}

/// The pixels of the first `n` blended samples.
pub open spec fn blend_px_set(
    cvs1: Seq<(Seq<Vector>, Vector, Color, int)>,
    o1: Vector,
    cvs2: Seq<(Seq<Vector>, Vector, Color, int)>,
    o2: Vector,
    loc: Vector,
    p: int,
    w: int,
    h: int,
    n: int,
) -> Set<(int, int)> {
    Set::<(int, int)>::new(
        |q: (int, int)|
            exists|j: int| 0 <= j < n && q == blend_px(cvs1, o1, cvs2, o2, loc, p, w, h, j),
    )
}

/// One more blended sample extends the pixel set by one.
proof fn lemma_blend_px_set_step(
    cvs1: Seq<(Seq<Vector>, Vector, Color, int)>,
    o1: Vector,
    cvs2: Seq<(Seq<Vector>, Vector, Color, int)>,
    o2: Vector,
    loc: Vector,
    p: int,
    w: int,
    h: int,
    n: int,
)
    requires
        n >= 0,
    ensures
        blend_px_set(cvs1, o1, cvs2, o2, loc, p, w, h, n).insert(
            blend_px(cvs1, o1, cvs2, o2, loc, p, w, h, n),
        ) == blend_px_set(cvs1, o1, cvs2, o2, loc, p, w, h, n + 1),
{
    let s0 = blend_px_set(cvs1, o1, cvs2, o2, loc, p, w, h, n).insert(
        blend_px(cvs1, o1, cvs2, o2, loc, p, w, h, n),
    );
    let s1 = blend_px_set(cvs1, o1, cvs2, o2, loc, p, w, h, n + 1);
    assert forall|q: (int, int)| s0.contains(q) implies s1.contains(q) by {
        if q == blend_px(cvs1, o1, cvs2, o2, loc, p, w, h, n) {
            assert(0 <= n < n + 1 && q == blend_px(cvs1, o1, cvs2, o2, loc, p, w, h, n));
        }
    }
    assert forall|q: (int, int)| s1.contains(q) implies s0.contains(q) by {
        let j = choose|j: int|
            0 <= j < n + 1 && q == blend_px(cvs1, o1, cvs2, o2, loc, p, w, h, j);
        if j < n {
            assert(blend_px_set(cvs1, o1, cvs2, o2, loc, p, w, h, n).contains(q));
        }
    }
    assert(s0 =~= s1);
}

impl InterpolatedCurve {
    /// Draw the blend onto the frame: each parameter sample paints the
    /// blended point with the blended color.
    pub fn draw(&self, placement: Vector, img: &mut Frame)
        requires
            self.wf(),
            placement.wf(),
            frame_wf(*old(img)),
        ensures
            frame_wf(*final(img)),
            img_dims(*final(img)) == img_dims(*old(img)),
            img_pixels(*final(img)) == stamped(
                img_pixels(*old(img)),
                img_dims(*old(img)).0,
                img_dims(*old(img)).1,
                blend_px_set(
                    sview(self.one),
                    self.one.origin,
                    sview(self.two),
                    self.two.origin,
                    placement,
                    self.progress as int,
                    img_dims(*old(img)).0 as int,
                    img_dims(*old(img)).1 as int,
                    SAMPLES + 1,
                ),
                color_lerp_spec(self.one.color, self.two.color, self.progress as int),
            ),
    {
        let w: u32 = frame_width(img);
        let h: u32 = frame_height(img);
        let ghost base = img_pixels(*img);
        let color: Color = color_lerp(self.one.color, self.two.color, self.progress);
        if w == 0 || h == 0 {
            proof {
                crate::bezier::lemma_stamped_all_out(
                    base,
                    w as nat,
                    h as nat,
                    blend_px_set(
                        sview(self.one),
                        self.one.origin,
                        sview(self.two),
                        self.two.origin,
                        placement,
                        self.progress as int,
                        w as int,
                        h as int,
                        SAMPLES + 1,
                    ),
                    color,
                );
            }
            return;
        }
        let mut j: u32 = 0;
        while j <= SAMPLES
            invariant
                self.wf(),
                placement.wf(),
                w >= 1,
                h >= 1,
                j <= SAMPLES + 1,
                w as nat == img_dims(*img).0,
                h as nat == img_dims(*img).1,
                img_dims(*img) == img_dims(*old(img)),
                frame_wf(*img),
                base == img_pixels(*old(img)),
                color == color_lerp_spec(self.one.color, self.two.color, self.progress as int),
                img_pixels(*img) == stamped(base, w as nat, h as nat, blend_px_set(
                    sview(self.one),
                    self.one.origin,
                    sview(self.two),
                    self.two.origin,
                    placement,
                    self.progress as int,
                    w as int,
                    h as int,
                    j as int,
                ), color),
            decreases SAMPLES + 1 - j,
        {
            let t: i64 = sample_t_exec(j);
            let q1: Vector = self.one.trace(t);
            let q2: Vector = self.two.trace(t);
            let ax: i64 = placement.x + q1.x;
            let ay: i64 = placement.y + q1.y;
            let bx: i64 = placement.x + q2.x;
            let by: i64 = placement.y + q2.y;
            let mx: i64 = fx_lerp(ax, bx, self.progress);
            let my: i64 = fx_lerp(ay, by, self.progress);
            proof {
                lemma_lerp_bounds(ax as int, bx as int, self.progress as int, 0x2100_0000_0000);
                lemma_lerp_bounds(ay as int, by as int, self.progress as int, 0x2100_0000_0000);
            }
            let pos: Vector = Vector { x: mx, y: my };
            let (px, py) = pos.to_pixels(w, h);
            let ghost s_before = blend_px_set(
                sview(self.one),
                self.one.origin,
                sview(self.two),
                self.two.origin,
                placement,
                self.progress as int,
                w as int,
                h as int,
                j as int,
            );
            frame_put(img, px, py, color);
            proof {
                assert((px as int, py as int) == blend_px(
                    sview(self.one),
                    self.one.origin,
                    sview(self.two),
                    self.two.origin,
                    placement,
                    self.progress as int,
                    w as int,
                    h as int,
                    j as int,
                ));
                lemma_stamped_insert(
                    base,
                    w as nat,
                    h as nat,
                    s_before,
                    color,
                    (px as int, py as int),
                );
                lemma_blend_px_set_step(
                    sview(self.one),
                    self.one.origin,
                    sview(self.two),
                    self.two.origin,
                    placement,
                    self.progress as int,
                    w as int,
                    h as int,
                    j as int,
                );
            }
            j = j + 1;
        }
    }
}

/// At progress zero the blended sample is exactly the first shape's
/// sample; at progress one, exactly the second's.
pub proof fn lemma_blend_ends(
    cvs1: Seq<(Seq<Vector>, Vector, Color, int)>,
    o1: Vector,
    cvs2: Seq<(Seq<Vector>, Vector, Color, int)>,
    o2: Vector,
    loc: Vector,
    j: int,
)
    ensures
        blend_pt(cvs1, o1, cvs2, o2, loc, 0, j) == (
            loc.x + shape_trace_cvs(cvs1, o1, sample_t(j)).0,
            loc.y + shape_trace_cvs(cvs1, o1, sample_t(j)).1,
        ),
        blend_pt(cvs1, o1, cvs2, o2, loc, FX_ONE as int, j) == (
            loc.x + shape_trace_cvs(cvs2, o2, sample_t(j)).0,
            loc.y + shape_trace_cvs(cvs2, o2, sample_t(j)).1,
        ),
{
    let q1 = shape_trace_cvs(cvs1, o1, sample_t(j));
    let q2 = shape_trace_cvs(cvs2, o2, sample_t(j));
    lemma_lerp_at_zero(loc.x + q1.0, loc.x + q2.0);
    lemma_lerp_at_zero(loc.y + q1.1, loc.y + q2.1);
    lemma_lerp_at_one(loc.x + q1.0, loc.x + q2.0);
    lemma_lerp_at_one(loc.y + q1.1, loc.y + q2.1);
}

/// At progress one half each blended sample is the midpoint of the
/// two shapes' samples, rounded to the nearest grid value, half up.
pub proof fn lemma_blend_midpoint(
    cvs1: Seq<(Seq<Vector>, Vector, Color, int)>,
    o1: Vector,
    cvs2: Seq<(Seq<Vector>, Vector, Color, int)>,
    o2: Vector,
    loc: Vector,
    j: int,
)
    ensures
        blend_pt(cvs1, o1, cvs2, o2, loc, FX_HALF as int, j) == (
            (loc.x + shape_trace_cvs(cvs1, o1, sample_t(j)).0 + (loc.x + shape_trace_cvs(
                cvs2,
                o2,
                sample_t(j),
            ).0) + 1) / 2,
            (loc.y + shape_trace_cvs(cvs1, o1, sample_t(j)).1 + (loc.y + shape_trace_cvs(
                cvs2,
                o2,
                sample_t(j),
            ).1) + 1) / 2,
        ),
{
    let q1 = shape_trace_cvs(cvs1, o1, sample_t(j));
    let q2 = shape_trace_cvs(cvs2, o2, sample_t(j));
    lemma_lerp_at_half(loc.x + q1.0, loc.x + q2.0);
    lemma_lerp_at_half(loc.y + q1.1, loc.y + q2.1);
}


impl Interpolate {
    /// Construct an animation from this interpolation.
    pub fn animate(&self) -> (a: crate::animation::Animation)
        ensures
            a matches crate::animation::Animation::Interpolate(ip) && sview(ip.one) == sview(
                self.one,
            ) && sview(ip.two) == sview(self.two) && ip.one.origin == self.one.origin
                && ip.two.origin == self.two.origin && ip.one.color == self.one.color
                && ip.two.color == self.two.color,
            self.wf() ==> a.wf(),
    {
        crate::animation::Animation::Interpolate(self.duplicate())
    }
}

} // verus!
