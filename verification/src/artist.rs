//! An image artist: the immutable snapshot an animation produces at
//! one progress value, which knows how to stamp itself onto a frame.

use vstd::prelude::*;

use crate::bezier::SAMPLES;
use crate::color::color_lerp_spec;
use crate::frame::Frame;
use crate::frame::frame_wf;
use crate::frame::img_dims;
use crate::frame::img_pixels;
use crate::frame::stamped;
use crate::interpolate::InterpolatedCurve;
use crate::interpolate::blend_px_set;
use crate::shape::Shape;
use crate::shape::shape_draw_upto;
use crate::shape::sview;
use crate::trace::TracedShape;
use crate::trace::trace_segments;
use crate::trace::traced_set;
use crate::vector::Vector;

verus! {

/// A drawable snapshot: a still shape, a blend of two shapes frozen
/// at one progress, or a partially traced outline.
#[derive(Clone, Debug)]
pub enum Artist {
    /// A shape drawn as it is.
    Still(Shape),
    /// A blend of two shapes at a fixed progress.
    Blend(InterpolatedCurve),
    /// A partially traced outline.
    Outline(TracedShape),
}

impl Artist {
    /// The snapshot's data is well formed.
    pub open spec fn wf(self) -> bool {
        match self {
            Artist::Still(s) => s.wf(),
            Artist::Blend(ic) => ic.wf(),
            Artist::Outline(ts) => ts.wf(),
        }
    }

    /// The pixel grid after this snapshot stamps itself onto `base`
    /// at the given placement.
    pub open spec fn draw_spec(
        self,
        placement: Vector,
        w: nat,
        h: nat,
        base: Map<(int, int), (u8, u8, u8)>,
    ) -> Map<(int, int), (u8, u8, u8)> {
        match self {
            Artist::Still(s) => shape_draw_upto(
                sview(s),
                Vector {
                    x: (s.origin.x + placement.x) as i64,
                    y: (s.origin.y + placement.y) as i64,
                },
                w,
                h,
                base,
                sview(s).len() as int,
            ),
            Artist::Blend(ic) => stamped(
                base,
                w,
                h,
                blend_px_set(
                    sview(ic.one),
                    ic.one.origin,
                    sview(ic.two),
                    ic.two.origin,
                    placement,
                    ic.progress as int,
                    w as int,
                    h as int,
                    SAMPLES + 1,
                ),
                color_lerp_spec(ic.one.color, ic.two.color, ic.progress as int),
            ),
            Artist::Outline(ts) => stamped(
                base,
                w,
                h,
                traced_set(
                    sview(ts.shape),
                    ts.shape.origin,
                    placement,
                    ts.shape.thickness as int,
                    w as int,
                    h as int,
                    trace_segments(ts.progress as int),
                ),
                ts.shape.color,
            ),
        }
    }

    /// Draw this snapshot onto the frame at the given placement.
    pub fn draw(&self, placement: Vector, img: &mut Frame)
        requires
            self.wf(),
            placement.wf(),
            frame_wf(*old(img)),
        ensures
            frame_wf(*final(img)),
            img_dims(*final(img)) == img_dims(*old(img)),
            img_pixels(*final(img)) == self.draw_spec(
                placement,
                img_dims(*old(img)).0,
                img_dims(*old(img)).1,
                img_pixels(*old(img)),
            ),
    {
        match self {
            Artist::Still(s) => s.draw(placement, img),
            Artist::Blend(ic) => ic.draw(placement, img),
            Artist::Outline(ts) => ts.draw(placement, img),
        }
    }
}

} // verus!
