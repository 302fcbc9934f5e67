//! A rectangle.

use vstd::prelude::*;

use crate::bezier::Bezier;
use crate::bezier::MAX_THICKNESS;
use crate::color::Color;
use crate::shape::Shape;
use crate::shape::sview;
use crate::vector::Vector;

verus! {

/// Magnitude bound on a rectangle's center coordinates and side
/// lengths.
pub const RECT_MAX: i64 = 0x400_0000;

/// A rectangle: a shape of four straight sides.
#[derive(Clone, Copy, Debug)]
pub struct Rectangle;

/// Side `q` of a rectangle with the given half-sides, running
/// counterclockwise from the upper-right corner.
pub open spec fn rect_side(xs: int, ys: int, q: int) -> Seq<Vector> {
    let x = xs as i64;
    let y = ys as i64;
    let nx = (-xs) as i64;
    let ny = (-ys) as i64;
    if q == 0 {
        seq![Vector { x, y }, Vector { x: nx, y }]
    } else if q == 1 {
        seq![Vector { x: nx, y }, Vector { x: nx, y: ny }]
    } else if q == 2 {
        seq![Vector { x: nx, y: ny }, Vector { x, y: ny }]
    } else {
        seq![Vector { x, y: ny }, Vector { x, y }]
    }
}

impl Rectangle {
    /// Construct a new rectangle around `center` with the given side
    /// lengths: four straight sides between the corners, each corner
    /// half a side away from the center.
    pub fn pynew(center: Vector, width: i64, height: i64, color: Color, thickness: i32) -> (r: (
        Rectangle,
        Shape,
    ))
        requires
            -RECT_MAX <= center.x <= RECT_MAX,
            -RECT_MAX <= center.y <= RECT_MAX,
            0 <= width <= RECT_MAX,
            0 <= height <= RECT_MAX,
            -MAX_THICKNESS <= thickness <= MAX_THICKNESS,
        ensures
            r.1.wf(),
            r.1.origin == center,
            r.1.color == color,
            r.1.thickness == thickness,
            sview(r.1).len() == 4,
            forall|q: int|
                0 <= q < 4 ==> (#[trigger] sview(r.1)[q]) == (
                    rect_side((width / 2) as int, (height / 2) as int, q),
                    Vector { x: 0i64, y: 0i64 },
                    color,
                    thickness as int,
                ),
    {
        let xs: i64 = ((width as u64) / 2) as i64;
        let ys: i64 = ((height as u64) / 2) as i64;
        let zero = Vector { x: 0, y: 0 };
        let mut s0: Vec<Vector> = Vec::new();
        s0.push(Vector { x: xs, y: ys });
        s0.push(Vector { x: -xs, y: ys });
        let mut s1: Vec<Vector> = Vec::new();
        s1.push(Vector { x: -xs, y: ys });
        s1.push(Vector { x: -xs, y: -ys });
        let mut s2: Vec<Vector> = Vec::new();
        s2.push(Vector { x: -xs, y: -ys });
        s2.push(Vector { x: xs, y: -ys });
        let mut s3: Vec<Vector> = Vec::new();
        s3.push(Vector { x: xs, y: -ys });
        s3.push(Vector { x: xs, y: ys });
        proof {
            assert(s0@ =~= rect_side(xs as int, ys as int, 0));
            assert(s1@ =~= rect_side(xs as int, ys as int, 1));
            assert(s2@ =~= rect_side(xs as int, ys as int, 2));
            assert(s3@ =~= rect_side(xs as int, ys as int, 3));
        }
        let mut curves: Vec<Bezier> = Vec::new();
        curves.push(Bezier { origin: zero, color, thickness, points: s0 });
        curves.push(Bezier { origin: zero, color, thickness, points: s1 });
        curves.push(Bezier { origin: zero, color, thickness, points: s2 });
        curves.push(Bezier { origin: zero, color, thickness, points: s3 });
        let shape = Shape { curves, origin: center, color, thickness };
        proof {
            assert forall|q: int| 0 <= q < 4 implies (#[trigger] sview(shape)[q]) == (
                rect_side((width / 2) as int, (height / 2) as int, q),
                Vector { x: 0i64, y: 0i64 },
                color,
                thickness as int,
            ) by {
                assert(sview(shape)[q] == crate::shape::cview(shape.curves@[q]));
            }
        }
        (Rectangle, shape)
    }
}

} // verus!
