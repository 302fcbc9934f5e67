//! Progressive tracing of a shape's outline.
//!
//! A tracing animation reveals a shape over time: at progress `p` it
//! strokes the part of the outline from parameter zero to `p`,
//! connecting consecutive pixel samples with rasterized lines and
//! thickening each line point with the shape's brush stamp.

use vstd::prelude::*;

use crate::bezier::SAMPLES;
use crate::bezier::sample_t;
use crate::bezier::sample_t_exec;
use crate::bresenham::bres_pt;
use crate::bresenham::bres_steps;
use crate::bresenham::bresenham_points;
use crate::brush::Brush;
use crate::brush::brush_pred;
use crate::color::Color;
use crate::fixed::FX_ONE;
use crate::frame::Frame;
use crate::frame::frame_height;
use crate::frame::frame_put;
use crate::frame::frame_wf;
use crate::frame::frame_width;
use crate::frame::img_dims;
use crate::frame::img_pixels;
use crate::frame::in_rect;
use crate::frame::lemma_stamped_empty;
use crate::frame::lemma_stamped_insert;
use crate::frame::lemma_stamped_union;
use crate::frame::stamped;
use crate::shape::Shape;
use crate::shape::shape_trace_cvs;
use crate::shape::sview;
use crate::vector::Vector;
use crate::vector::px_spec;
use crate::vector::py_spec;

verus! {

/// An animation that traces the outline of a shape, drawing it over
/// time.
#[derive(Clone, Debug)]
pub struct Trace {
    /// Shape to be traced.
    pub shape: Shape,
}

impl Trace {
    /// Construct a new tracing animation.
    pub fn new(shape: Shape) -> (t: Trace)
        ensures
            t == (Trace { shape }),
    {
        Trace { shape }
    }

    /// The traced shape is well formed.
    pub open spec fn wf(self) -> bool {
        self.shape.wf()
    }

    /// An owned copy tracing the same shape.
    pub fn duplicate(&self) -> (t: Trace)
        ensures
            sview(t.shape) == sview(self.shape),
            t.shape.origin == self.shape.origin,
            t.shape.color == self.shape.color,
            t.shape.thickness == self.shape.thickness,
            self.wf() ==> t.wf(),
    {
        Trace { shape: self.shape.duplicate() }
    }
}

/// A shape that is partially traced: the snapshot a tracing animation
/// paints at one progress value.
#[derive(Clone, Debug)]
pub struct TracedShape {
    /// Shape to be traced.
    pub shape: Shape,
    /// Amount of progress this tracing has made, in `[0, 1]`.
    pub progress: i64,
}

impl TracedShape {
    /// Construct a new partially traced snapshot.
    pub fn new(shape: Shape, progress: i64) -> (t: TracedShape)
        ensures
            t == (TracedShape { shape, progress }),
    {
        TracedShape { shape, progress }
    }

    /// The shape is well formed and the progress is a progress.
    pub open spec fn wf(self) -> bool {
        &&& self.shape.wf()
        &&& 0 <= self.progress <= FX_ONE
    }
}

/// How many whole sample steps fit below the given progress.
pub open spec fn trace_segments(p: int) -> int {
    p * (SAMPLES as int) / (FX_ONE as int)
}

/// The pixel that outline sample `j` lands on, shifted by `loc`.
pub open spec fn trace_sample_px(
    cvs: Seq<(Seq<Vector>, Vector, Color, int)>,
    o: Vector,
    loc: Vector,
    w: int,
    h: int,
    j: int,
) -> (int, int) {
    let q = shape_trace_cvs(cvs, o, sample_t(j));
    (px_spec(loc.x + q.0, w), py_spec(loc.y + q.1, h))
}

/// Whether pixel `p` is covered by the brush stamp centered at `c`.
pub open spec fn within_brush(p: (int, int), c: (int, int), th: int) -> bool {
    brush_pred(th, p.0 - c.0, p.1 - c.1)
}

/// The in-bounds pixels covered when the stamp is pressed at `c`.
pub open spec fn stamp_set(c: (int, int), th: int, w: int, h: int) -> Set<(int, int)> {
    Set::<(int, int)>::new(
        |p: (int, int)| within_brush(p, c, th) && in_rect(p, w as nat, h as nat),
    )
}

/// The in-bounds pixels covered when the stamp is dragged along the
/// rasterized line from `a` to `b`.
pub open spec fn seg_set(a: (int, int), b: (int, int), th: int, w: int, h: int) -> Set<
    (int, int),
> {
    Set::<(int, int)>::new(
        |p: (int, int)|
            exists|k: int|
                0 <= k <= bres_steps(a, b) && stamp_set(bres_pt(a, b, k), th, w, h).contains(p),
    )
}

/// The pixels covered when outline segment `i` is stroked: the
/// rasterized line between samples `i` and `i + 1`, thickened by the
/// brush.
pub open spec fn seg_of(
    cvs: Seq<(Seq<Vector>, Vector, Color, int)>,
    o: Vector,
    loc: Vector,
    th: int,
    w: int,
    h: int,
    i: int,
) -> Set<(int, int)> {
    seg_set(
        trace_sample_px(cvs, o, loc, w, h, i),
        trace_sample_px(cvs, o, loc, w, h, i + 1),
        th,
        w,
        h,
    )
}

/// The in-bounds pixels covered when the first `n` outline segments
/// are stroked.
pub open spec fn traced_set(
    cvs: Seq<(Seq<Vector>, Vector, Color, int)>,
    o: Vector,
    loc: Vector,
    th: int,
    w: int,
    h: int,
    n: int,
) -> Set<(int, int)> {
    Set::<(int, int)>::new(
        |p: (int, int)|
            exists|i: int| 0 <= i < n && (#[trigger] seg_of(cvs, o, loc, th, w, h, i)).contains(p),
    )
}

/// The pixels pressed by the first `m` offsets of the brush's stamp
/// list at center `c`.
spec fn stamp_prefix(
    pts: Seq<(i32, i32)>,
    c: (int, int),
    w: int,
    h: int,
    m: int,
) -> Set<(int, int)> {
    Set::<(int, int)>::new(
        |p: (int, int)|
            exists|mi: int|
                0 <= mi < m && p == (c.0 + pts[mi].0, c.1 + pts[mi].1) && in_rect(
                    p,
                    w as nat,
                    h as nat,
                ),
    )
}

/// Press the brush stamp once, centered at `(cx, cy)`.
fn stamp_point(img: &mut Frame, cx: i64, cy: i64, brush: &Brush, c: Color)
    requires
        frame_wf(*old(img)),
        brush.wf(),
        -0x4_0000_0000 <= cx <= 0x4_0000_0000,
        -0x4_0000_0000 <= cy <= 0x4_0000_0000,
    ensures
        frame_wf(*final(img)),
        img_dims(*final(img)) == img_dims(*old(img)),
        img_pixels(*final(img)) == stamped(
            img_pixels(*old(img)),
            img_dims(*old(img)).0,
            img_dims(*old(img)).1,
            stamp_set(
                (cx as int, cy as int),
                brush.thickness as int,
                img_dims(*old(img)).0 as int,
                img_dims(*old(img)).1 as int,
            ),
            c,
        ),
{
    let w: u32 = frame_width(img);
    let h: u32 = frame_height(img);
    let ghost base = img_pixels(*img);
    let ghost cc = (cx as int, cy as int);
    let mut m: usize = 0;
    while m < brush.points.len()
        invariant
            frame_wf(*img),
            brush.wf(),
            -0x4_0000_0000 <= cx <= 0x4_0000_0000,
            -0x4_0000_0000 <= cy <= 0x4_0000_0000,
            cc == (cx as int, cy as int),
            m <= brush.points@.len(),
            w as nat == img_dims(*img).0,
            h as nat == img_dims(*img).1,
            img_dims(*img) == img_dims(*old(img)),
            base == img_pixels(*old(img)),
            img_pixels(*img) == stamped(base, w as nat, h as nat, stamp_prefix(
                brush.points@,
                cc,
                w as int,
                h as int,
                m as int,
            ), c),
        decreases brush.points@.len() - m,
    {
        let (di, dj) = brush.points[m];
        let tx: i64 = cx + di as i64;
        let ty: i64 = cy + dj as i64;
        let ghost s_before = stamp_prefix(brush.points@, cc, w as int, h as int, m as int);
        let ghost target = (tx as int, ty as int);
        if 0 <= tx && tx < w as i64 && 0 <= ty && ty < h as i64 {
            frame_put(img, tx as u32, ty as u32, c);
            proof {
                lemma_stamped_insert(base, w as nat, h as nat, s_before, c, target);
                lemma_stamp_prefix_step(brush.points@, cc, w as int, h as int, m as int);
                assert(in_rect(target, w as nat, h as nat));
                assert(s_before.insert(target) =~= stamp_prefix(
                    brush.points@,
                    cc,
                    w as int,
                    h as int,
                    m as int + 1,
                ));
            }
        } else {
            proof {
                assert forall|p: (int, int)|
                    stamp_prefix(brush.points@, cc, w as int, h as int, m as int + 1).contains(p)
                        implies s_before.contains(p) by {
                    let mi = choose|mi: int|
                        0 <= mi < m + 1 && p == (
                            cc.0 + brush.points@[mi].0,
                            cc.1 + brush.points@[mi].1,
                        ) && in_rect(p, w as nat, h as nat);
                    assert(mi < m);
                }
                assert(s_before =~= stamp_prefix(
                    brush.points@,
                    cc,
                    w as int,
                    h as int,
                    m as int + 1,
                ));
            }
        }
        m = m + 1;
    }
    proof {
        lemma_stamp_prefix_full(brush.points@, brush.thickness as int, cc, w as int, h as int);
    }
}

/// Covering one more listed offset inserts at most its target pixel.
proof fn lemma_stamp_prefix_step(pts: Seq<(i32, i32)>, c: (int, int), w: int, h: int, m: int)
    requires
        0 <= m < pts.len(),
        in_rect((c.0 + pts[m].0, c.1 + pts[m].1), w as nat, h as nat),
    ensures
        stamp_prefix(pts, c, w, h, m).insert((c.0 + pts[m].0, c.1 + pts[m].1)) == stamp_prefix(
            pts,
            c,
            w,
            h,
            m + 1,
        ),
{
    let target = (c.0 + pts[m].0, c.1 + pts[m].1);
    let s0 = stamp_prefix(pts, c, w, h, m).insert(target);
    let s1 = stamp_prefix(pts, c, w, h, m + 1);
    assert forall|p: (int, int)| s0.contains(p) implies s1.contains(p) by {
        if p == target {
            assert(0 <= m < m + 1 && p == (c.0 + pts[m].0, c.1 + pts[m].1) && in_rect(
                p,
                w as nat,
                h as nat,
            ));
        }
    }
    assert forall|p: (int, int)| s1.contains(p) implies s0.contains(p) by {
        let mi = choose|mi: int|
            0 <= mi < m + 1 && p == (c.0 + pts[mi].0, c.1 + pts[mi].1) && in_rect(
                p,
                w as nat,
                h as nat,
            );
        if mi < m {
            assert(stamp_prefix(pts, c, w, h, m).contains(p));
        }
    }
    assert(s0 =~= s1);
}

/// A full pass over the stamp list covers exactly the stamp set.
proof fn lemma_stamp_prefix_full(pts: Seq<(i32, i32)>, th: int, c: (int, int), w: int, h: int)
    requires
        forall|q: (i32, i32)| pts.contains(q) <==> brush_pred(th, q.0 as int, q.1 as int),
        -0x8000_0000 <= th <= 0x7fff_ffff,
    ensures
        stamp_prefix(pts, c, w, h, pts.len() as int) == stamp_set(c, th, w, h),
{
    let s0 = stamp_prefix(pts, c, w, h, pts.len() as int);
    let s1 = stamp_set(c, th, w, h);
    assert forall|p: (int, int)| s0.contains(p) implies s1.contains(p) by {
        let mi = choose|mi: int|
            0 <= mi < pts.len() && p == (c.0 + pts[mi].0, c.1 + pts[mi].1) && in_rect(
                p,
                w as nat,
                h as nat,
            );
        assert(pts.contains(pts[mi]));
        assert(brush_pred(th, pts[mi].0 as int, pts[mi].1 as int));
        assert(p.0 - c.0 == pts[mi].0 as int && p.1 - c.1 == pts[mi].1 as int);
    }
    assert forall|p: (int, int)| s1.contains(p) implies s0.contains(p) by {
        assert(brush_pred(th, p.0 - c.0, p.1 - c.1));
        let q = ((p.0 - c.0) as i32, (p.1 - c.1) as i32);
        assert(q.0 as int == p.0 - c.0 && q.1 as int == p.1 - c.1);
        assert(pts.contains(q));
        let mi = choose|mi: int| 0 <= mi < pts.len() && pts[mi] == q;
        assert(p == (c.0 + pts[mi].0, c.1 + pts[mi].1));
    }
    assert(s0 =~= s1);
}

/// The pixels covered by pressing the stamp at the first `l` points
/// of the line from `a` to `b`.
spec fn seg_prefix(a: (int, int), b: (int, int), th: int, w: int, h: int, l: int) -> Set<
    (int, int),
> {
    Set::<(int, int)>::new(
        |p: (int, int)|
            exists|k: int| 0 <= k < l && stamp_set(bres_pt(a, b, k), th, w, h).contains(p),
    )
}

/// Stroke the rasterized line from `a` to `b` with the brush.
fn stamp_segment(img: &mut Frame, ax: i64, ay: i64, bx: i64, by: i64, brush: &Brush, c: Color)
    requires
        frame_wf(*old(img)),
        brush.wf(),
        0 <= ax <= 0x1_0000_0000,
        0 <= ay <= 0x1_0000_0000,
        0 <= bx <= 0x1_0000_0000,
        0 <= by <= 0x1_0000_0000,
    ensures
        frame_wf(*final(img)),
        img_dims(*final(img)) == img_dims(*old(img)),
        img_pixels(*final(img)) == stamped(
            img_pixels(*old(img)),
            img_dims(*old(img)).0,
            img_dims(*old(img)).1,
            seg_set(
                (ax as int, ay as int),
                (bx as int, by as int),
                brush.thickness as int,
                img_dims(*old(img)).0 as int,
                img_dims(*old(img)).1 as int,
            ),
            c,
        ),
{
    let ghost w = img_dims(*old(img)).0;
    let ghost h = img_dims(*old(img)).1;
    let ghost base = img_pixels(*old(img));
    let ghost a = (ax as int, ay as int);
    let ghost b = (bx as int, by as int);
    let ghost th = brush.thickness as int;
    let line: Vec<(i64, i64)> = bresenham_points(ax, ay, bx, by);
    let mut l: usize = 0;
    proof {
        lemma_stamped_empty(base, w, h, c);
        assert(seg_prefix(a, b, th, w as int, h as int, 0) =~= Set::<(int, int)>::empty());
    }
    while l < line.len()
        invariant
            frame_wf(*img),
            brush.wf(),
            th == brush.thickness as int,
            0 <= ax <= 0x1_0000_0000,
            0 <= ay <= 0x1_0000_0000,
            0 <= bx <= 0x1_0000_0000,
            0 <= by <= 0x1_0000_0000,
            a == (ax as int, ay as int),
            b == (bx as int, by as int),
            l <= line@.len(),
            line@.len() == bres_steps(a, b) + 1,
            forall|k: int|
                0 <= k < line@.len() ==> (#[trigger] line@[k].0 as int, line@[k].1 as int)
                    == bres_pt(a, b, k),
            w == img_dims(*img).0,
            h == img_dims(*img).1,
            img_dims(*img) == img_dims(*old(img)),
            base == img_pixels(*old(img)),
            img_pixels(*img) == stamped(base, w, h, seg_prefix(a, b, th, w as int, h as int, l as int), c),
        decreases line@.len() - l,
    {
        let (lx, ly) = line[l];
        proof {
            assert((lx as int, ly as int) == bres_pt(a, b, l as int));
            crate::bresenham::lemma_bres_pt_bounds(a, b, l as int);
        }
        let ghost before = img_pixels(*img);
        stamp_point(img, lx, ly, brush, c);
        proof {
            lemma_stamped_union(
                base,
                w,
                h,
                seg_prefix(a, b, th, w as int, h as int, l as int),
                stamp_set(bres_pt(a, b, l as int), th, w as int, h as int),
                c,
            );
            lemma_seg_prefix_step(a, b, th, w as int, h as int, l as int);
        }
        l = l + 1;
    }
    proof {
        assert(seg_prefix(a, b, th, w as int, h as int, line@.len() as int) =~= seg_set(
            a,
            b,
            th,
            w as int,
            h as int,
        ));
    }
}

/// Stroking one more line point unions in that point's stamp set.
proof fn lemma_seg_prefix_step(a: (int, int), b: (int, int), th: int, w: int, h: int, l: int)
    requires
        0 <= l,
    ensures
        seg_prefix(a, b, th, w, h, l).union(stamp_set(bres_pt(a, b, l), th, w, h)) == seg_prefix(
            a,
            b,
            th,
            w,
            h,
            l + 1,
        ),
{
    let s0 = seg_prefix(a, b, th, w, h, l).union(stamp_set(bres_pt(a, b, l), th, w, h));
    let s1 = seg_prefix(a, b, th, w, h, l + 1);
    assert forall|p: (int, int)| s0.contains(p) implies s1.contains(p) by {
        if stamp_set(bres_pt(a, b, l), th, w, h).contains(p) {
            assert(0 <= l < l + 1 && stamp_set(bres_pt(a, b, l), th, w, h).contains(p));
        } else {
            let k = choose|k: int| 0 <= k < l && stamp_set(bres_pt(a, b, k), th, w, h).contains(p);
            assert(0 <= k < l + 1 && stamp_set(bres_pt(a, b, k), th, w, h).contains(p));
        }
    }
    assert forall|p: (int, int)| s1.contains(p) implies s0.contains(p) by {
        let k = choose|k: int| 0 <= k < l + 1 && stamp_set(bres_pt(a, b, k), th, w, h).contains(p);
        if k < l {
            assert(seg_prefix(a, b, th, w, h, l).contains(p));
        }
    }
    assert(s0 =~= s1);
}

/// Stroking one more segment unions in that segment's set.
proof fn lemma_traced_step(
    cvs: Seq<(Seq<Vector>, Vector, Color, int)>,
    o: Vector,
    loc: Vector,
    th: int,
    w: int,
    h: int,
    i: int,
)
    requires
        0 <= i,
    ensures
        traced_set(cvs, o, loc, th, w, h, i).union(
            seg_set(
                trace_sample_px(cvs, o, loc, w, h, i),
                trace_sample_px(cvs, o, loc, w, h, i + 1),
                th,
                w,
                h,
            ),
        ) == traced_set(cvs, o, loc, th, w, h, i + 1),
{
    let si = seg_of(cvs, o, loc, th, w, h, i);
    let s0 = traced_set(cvs, o, loc, th, w, h, i).union(si);
    let s1 = traced_set(cvs, o, loc, th, w, h, i + 1);
    assert forall|p: (int, int)| s0.contains(p) implies s1.contains(p) by {
        if si.contains(p) {
            assert(0 <= i < i + 1 && seg_of(cvs, o, loc, th, w, h, i).contains(p));
        } else {
            let ii = choose|ii: int|
                0 <= ii < i && (#[trigger] seg_of(cvs, o, loc, th, w, h, ii)).contains(p);
            assert(0 <= ii < i + 1 && seg_of(cvs, o, loc, th, w, h, ii).contains(p));
        }
    }
    assert forall|p: (int, int)| s1.contains(p) implies s0.contains(p) by {
        let ii = choose|ii: int|
            0 <= ii < i + 1 && (#[trigger] seg_of(cvs, o, loc, th, w, h, ii)).contains(p);
        if ii < i {
            assert(traced_set(cvs, o, loc, th, w, h, i).contains(p));
        }
    }
    assert(s0 =~= s1);
}

impl TracedShape {
    /// Draw the traced part of the outline: sample the shape's trace
    /// from zero to the progress, connect consecutive pixel samples
    /// with rasterized lines, and thicken every line point with the
    /// shape's brush.  Fewer than two samples draw nothing.
    pub fn draw(&self, placement: Vector, img: &mut Frame)
        requires
            self.wf(),
            placement.wf(),
            frame_wf(*old(img)),
        ensures
            frame_wf(*final(img)),
            img_dims(*final(img)) == img_dims(*old(img)),
            img_pixels(*final(img)) == stamped(
                img_pixels(*old(img)),
                img_dims(*old(img)).0,
                img_dims(*old(img)).1,
                traced_set(
                    sview(self.shape),
                    self.shape.origin,
                    placement,
                    self.shape.thickness as int,
                    img_dims(*old(img)).0 as int,
                    img_dims(*old(img)).1 as int,
                    trace_segments(self.progress as int),
                ),
                self.shape.color,
            ),
    {
        let w: u32 = frame_width(img);
        let h: u32 = frame_height(img);
        let ghost base = img_pixels(*img);
        let ghost cvs = sview(self.shape);
        let ghost o = self.shape.origin;
        let ghost th = self.shape.thickness as int;
        let ghost full = traced_set(
            cvs,
            o,
            placement,
            th,
            w as int,
            h as int,
            trace_segments(self.progress as int),
        );
        if w == 0 || h == 0 {
            proof {
                crate::bezier::lemma_stamped_all_out(base, w as nat, h as nat, full, self.shape.color);
            }
            return;
        }
        let ns: u64 = ((self.progress as u64) * 10000) / 65536;
        proof {
            vstd::arithmetic::div_mod::lemma_div_pos_is_pos(self.progress as int * 10000, 65536);
            vstd::arithmetic::div_mod::lemma_div_is_ordered(
                self.progress as int * 10000,
                65536int * 10000int,
                65536,
            );
            vstd::arithmetic::div_mod::lemma_div_multiples_vanish(10000, 65536);
            assert(ns as int == trace_segments(self.progress as int));
        }
        if ns < 1 {
            proof {
                lemma_stamped_empty(base, w as nat, h as nat, self.shape.color);
                assert(full =~= Set::<(int, int)>::empty());
            }
            return;
        }
        let n: u32 = ns as u32;
        let mut pts: Vec<(u32, u32)> = Vec::new();
        let mut j: u32 = 0;
        while j <= n
            invariant
                self.wf(),
                placement.wf(),
                w >= 1,
                h >= 1,
                1 <= n <= SAMPLES,
                cvs == sview(self.shape),
                o == self.shape.origin,
                j <= n + 1,
                pts@.len() == j,
                forall|jj: int|
                    0 <= jj < j ==> (#[trigger] pts@[jj].0 as int, pts@[jj].1 as int)
                        == trace_sample_px(cvs, o, placement, w as int, h as int, jj),
            decreases n + 1 - j,
        {
            let t: i64 = sample_t_exec(j);
            let q: Vector = self.shape.trace(t);
            let pos: Vector = Vector { x: placement.x + q.x, y: placement.y + q.y };
            let px = pos.to_pixels(w, h);
            pts.push(px);
            j = j + 1;
        }
        let brush: Brush = Brush::new(self.shape.thickness);
        let mut i: u32 = 0;
        proof {
            lemma_stamped_empty(base, w as nat, h as nat, self.shape.color);
            assert(traced_set(cvs, o, placement, th, w as int, h as int, 0) =~= Set::<
                (int, int),
            >::empty());
        }
        while i < n
            invariant
                self.wf(),
                placement.wf(),
                w >= 1,
                h >= 1,
                1 <= n <= SAMPLES,
                cvs == sview(self.shape),
                o == self.shape.origin,
                th == self.shape.thickness as int,
                brush.wf(),
                brush.thickness == self.shape.thickness,
                i <= n,
                pts@.len() == n + 1,
                forall|jj: int|
                    0 <= jj < pts@.len() ==> (#[trigger] pts@[jj].0 as int, pts@[jj].1 as int)
                        == trace_sample_px(cvs, o, placement, w as int, h as int, jj),
                w as nat == img_dims(*img).0,
                h as nat == img_dims(*img).1,
                img_dims(*img) == img_dims(*old(img)),
                frame_wf(*img),
                base == img_pixels(*old(img)),
                img_pixels(*img) == stamped(base, w as nat, h as nat, traced_set(
                    cvs,
                    o,
                    placement,
                    th,
                    w as int,
                    h as int,
                    i as int,
                ), self.shape.color),
            decreases n - i,
        {
            let (sx, sy) = pts[i as usize];
            let (ex, ey) = pts[(i + 1) as usize];
            stamp_segment(
                img,
                sx as i64,
                sy as i64,
                ex as i64,
                ey as i64,
                &brush,
                self.shape.color,
            );
            proof {
                lemma_stamped_union(
                    base,
                    w as nat,
                    h as nat,
                    traced_set(cvs, o, placement, th, w as int, h as int, i as int),
                    seg_of(cvs, o, placement, th, w as int, h as int, i as int),
                    self.shape.color,
                );
                lemma_traced_step(cvs, o, placement, th, w as int, h as int, i as int);
            }
            i = i + 1;
        }
    }
}

} // verus!
