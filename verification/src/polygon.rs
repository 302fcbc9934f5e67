//! An arbitrary polygon.

use vstd::prelude::*;

use crate::bezier::Bezier;
use crate::bezier::MAX_THICKNESS;
use crate::color::Color;
use crate::shape::Shape;
use crate::shape::sview;
use crate::vector::Vector;

verus! {

/// A polygon: a shape whose curves are the straight sides between
/// consecutive vertices, closed back to the first.
#[derive(Clone, Copy, Debug)]
pub struct Polygon;

/// The vertex that side `i` of an `n`-gon ends at: the next vertex,
/// wrapping around to the first.
pub open spec fn poly_next(points: Seq<Vector>, i: int) -> Vector {
    if i + 1 < points.len() {
        points[i + 1]
    } else {
        points[0]
    }
}

impl Polygon {
    /// Construct a new polygon: one straight side from each vertex to
    /// the next, and a closing side back to the first vertex.
    pub fn new(points: Vec<Vector>, center: Vector, color: Color, thickness: i32) -> (r: (
        Polygon,
        Shape,
    ))
        requires
            1 <= points@.len() <= crate::shape::MAX_CURVES,
            forall|i: int| 0 <= i < points@.len() ==> (#[trigger] points@[i]).wf(),
            center.wf(),
            -MAX_THICKNESS <= thickness <= MAX_THICKNESS,
        ensures
            r.1.wf(),
            r.1.origin == center,
            r.1.color == color,
            r.1.thickness == thickness,
            sview(r.1).len() == points@.len(),
            forall|i: int|
                0 <= i < points@.len() ==> (#[trigger] sview(r.1)[i]) == (
                    seq![points@[i], poly_next(points@, i)],
                    Vector { x: 0i64, y: 0i64 },
                    color,
                    thickness as int,
                ),
    {
        let n: usize = points.len();
        let mut curves: Vec<Bezier> = Vec::new();
        let mut i: usize = 0;
        while i < n
            invariant
                1 <= n == points@.len() <= crate::shape::MAX_CURVES,
                forall|j: int| 0 <= j < points@.len() ==> (#[trigger] points@[j]).wf(),
                -MAX_THICKNESS <= thickness <= MAX_THICKNESS,
                i <= n,
                curves@.len() == i,
                forall|j: int| 0 <= j < i ==> (#[trigger] curves@[j]).wf(),
                forall|j: int|
                    0 <= j < i ==> (#[trigger] crate::shape::cview(curves@[j])) == (
                        seq![points@[j], poly_next(points@, j)],
                        Vector { x: 0i64, y: 0i64 },
                        color,
                        thickness as int,
                    ),
            decreases n - i,
        {
            let a: Vector = points[i];
            let b: Vector = if i + 1 < n {
                points[i + 1]
            } else {
                points[0]
            };
            let mut side: Vec<Vector> = Vec::new();
            side.push(a);
            side.push(b);
            proof {
                assert(side@ =~= seq![points@[i as int], poly_next(points@, i as int)]);
            }
            curves.push(
                Bezier {
                    origin: Vector { x: 0, y: 0 },
                    color,
                    thickness,
                    points: side,
                },
            );
            i = i + 1;
        }
        let shape = Shape { curves, origin: center, color, thickness };
        proof {
            assert forall|j: int| 0 <= j < points@.len() implies (#[trigger] sview(shape)[j]) == (
                seq![points@[j], poly_next(points@, j)],
                Vector { x: 0i64, y: 0i64 },
                color,
                thickness as int,
            ) by {
                assert(sview(shape)[j] == crate::shape::cview(shape.curves@[j]));
            }
        }
        (Polygon, shape)
    }
}

} // verus!
