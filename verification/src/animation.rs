//! A video animation.
//!
//! An animation is driven by a progress value in `[0, 1]`: given a
//! progress, it returns an artist that paints its visual state at
//! that instant onto a frame.

use vstd::prelude::*;

use crate::artist::Artist;
use crate::bezier::SAMPLES;
use crate::color::color_lerp_spec;
use crate::fixed::FX_ONE;
use crate::interpolate::Interpolate;
use crate::interpolate::InterpolatedCurve;
use crate::interpolate::blend_px_set;
use crate::shape::Shape;
use crate::shape::shape_draw_upto;
use crate::shape::sview;
use crate::trace::Trace;
use crate::trace::TracedShape;
use crate::trace::trace_segments;
use crate::trace::traced_set;
use crate::vector::Vector;

verus! {

/// A video animation: a static display, a morph between two shapes,
/// or a progressive outline trace.
#[derive(Clone, Debug)]
pub enum Animation {
    /// Show a shape unchanged at every progress.
    Display(Shape),
    /// Morph one shape into another as progress runs.
    Interpolate(Interpolate),
    /// Reveal a shape's outline as progress runs.
    Trace(Trace),
}

impl Animation {
    /// The animation's data is well formed.
    pub open spec fn wf(self) -> bool {
        match self {
            Animation::Display(s) => s.wf(),
            Animation::Interpolate(ip) => ip.wf(),
            Animation::Trace(t) => t.wf(),
        }
    }

    /// The pixel grid after this animation, played at progress `p`,
    /// paints itself onto `base` at the given placement.
    pub open spec fn effect(
        self,
        p: int,
        placement: Vector,
        w: nat,
        h: nat,
        base: Map<(int, int), (u8, u8, u8)>,
    ) -> Map<(int, int), (u8, u8, u8)> {
        match self {
            Animation::Display(s) => shape_draw_upto(
                sview(s),
                Vector {
                    x: (s.origin.x + placement.x) as i64,
                    y: (s.origin.y + placement.y) as i64,
                },
                w,
                h,
                base,
                sview(s).len() as int,
            ),
            Animation::Interpolate(ip) => stamped_blend(ip, p, placement, w, h, base),
            Animation::Trace(t) => stamped_trace(t, p, placement, w, h, base),
        }
    }

    /// Produce the artist for the given progress: the display shows
    /// its shape unchanged, the interpolation blends at the progress,
    /// the trace reveals the outline up to the progress.
    pub fn play(&self, progress: i64) -> (a: Artist)
        requires
            self.wf(),
            0 <= progress <= FX_ONE,
        ensures
            a.wf(),
            forall|placement: Vector, w: nat, h: nat, base: Map<(int, int), (u8, u8, u8)>|
                (#[trigger] a.draw_spec(placement, w, h, base)) == self.effect(
                    progress as int,
                    placement,
                    w,
                    h,
                    base,
                ),
    {
        match self {
            Animation::Display(s) => {
                let copy = s.duplicate();
                let a = Artist::Still(copy);
                proof {
                    assert forall|placement: Vector, w: nat, h: nat, base: Map<
                        (int, int),
                        (u8, u8, u8),
                    >|
                        (#[trigger] a.draw_spec(placement, w, h, base)) == self.effect(
                            progress as int,
                            placement,
                            w,
                            h,
                            base,
                        ) by {}
                }
                a
            },
            Animation::Interpolate(ip) => {
                let copy = ip.duplicate();
                let a = Artist::Blend(InterpolatedCurve::new(copy.one, copy.two, progress));
                proof {
                    assert forall|placement: Vector, w: nat, h: nat, base: Map<
                        (int, int),
                        (u8, u8, u8),
                    >|
                        (#[trigger] a.draw_spec(placement, w, h, base)) == self.effect(
                            progress as int,
                            placement,
                            w,
                            h,
                            base,
                        ) by {}
                }
                a
            },
            Animation::Trace(t) => {
                let copy = t.duplicate();
                let a = Artist::Outline(TracedShape::new(copy.shape, progress));
                proof {
                    assert forall|placement: Vector, w: nat, h: nat, base: Map<
                        (int, int),
                        (u8, u8, u8),
                    >|
                        (#[trigger] a.draw_spec(placement, w, h, base)) == self.effect(
                            progress as int,
                            placement,
                            w,
                            h,
                            base,
                        ) by {}
                }
                a
            },
        }
    }
}

/// The pixel grid after an interpolation, at progress `p`, stamps its
/// blended samples onto `base`.
pub open spec fn stamped_blend(
    ip: Interpolate,
    p: int,
    placement: Vector,
    w: nat,
    h: nat,
    base: Map<(int, int), (u8, u8, u8)>,
) -> Map<(int, int), (u8, u8, u8)> {
    crate::frame::stamped(
        base,
        w,
        h,
        blend_px_set(
            sview(ip.one),
            ip.one.origin,
            sview(ip.two),
            ip.two.origin,
            placement,
            p,
            w as int,
            h as int,
            SAMPLES + 1,
        ),
        color_lerp_spec(ip.one.color, ip.two.color, p),
    )
}

/// The pixel grid after a tracing animation, at progress `p`, strokes
/// the revealed part of its outline onto `base`.
pub open spec fn stamped_trace(
    t: Trace,
    p: int,
    placement: Vector,
    w: nat,
    h: nat,
    base: Map<(int, int), (u8, u8, u8)>,
) -> Map<(int, int), (u8, u8, u8)> {
    crate::frame::stamped(
        base,
        w,
        h,
        traced_set(
            sview(t.shape),
            t.shape.origin,
            placement,
            t.shape.thickness as int,
            w as int,
            h as int,
            trace_segments(p),
        ),
        t.shape.color,
    )
}

} // verus!
