//! A circle.

use vstd::prelude::*;

use crate::bezier::Bezier;
use crate::bezier::MAX_THICKNESS;
use crate::color::Color;
use crate::fixed::fx_mul;
use crate::fixed::fx_mul_spec;
use crate::fixed::lemma_abs_mul_le;
use crate::fixed::lemma_fx_div_bound;
use crate::shape::Shape;
use crate::shape::sview;
use crate::vector::Vector;

verus! {

/// The fixed-point form of the magic number for a circle, relating
/// the positions of cubic Bezier control points that approximate a
/// quarter arc.
pub const MAGIC: i64 = 36195;

/// Magnitude bound on a circle's center coordinates and radius.
pub const CIRCLE_MAX: i64 = 0x400_0000;

/// A circle: a shape of four cubic Bezier quarter arcs.
#[derive(Clone, Copy, Debug)]
pub struct Circle;

/// The control points of the four quarter arcs of a circle of the
/// given radius, with `step == radius * MAGIC` on the fixed-point
/// grid: quarter `q` runs counterclockwise from axis to axis.
pub open spec fn circle_quarter(radius: int, step: int, q: int) -> Seq<Vector> {
    let r = radius as i64;
    let nr = (-radius) as i64;
    let s = step as i64;
    let ns = (-step) as i64;
    if q == 0 {
        seq![
            Vector { x: r, y: 0i64 },
            Vector { x: r, y: s },
            Vector { x: s, y: r },
            Vector { x: 0i64, y: r },
        ]
    } else if q == 1 {
        seq![
            Vector { x: 0i64, y: r },
            Vector { x: ns, y: r },
            Vector { x: nr, y: s },
            Vector { x: nr, y: 0i64 },
        ]
    } else if q == 2 {
        seq![
            Vector { x: nr, y: 0i64 },
            Vector { x: nr, y: ns },
            Vector { x: ns, y: nr },
            Vector { x: 0i64, y: nr },
        ]
    } else {
        seq![
            Vector { x: 0i64, y: nr },
            Vector { x: s, y: nr },
            Vector { x: r, y: ns },
            Vector { x: r, y: 0i64 },
        ]
    }
}

impl Circle {
    /// Construct a new circle around `center`: four cubic quarter
    /// arcs whose inner control points sit `radius * MAGIC` off the
    /// axes.
    pub fn pynew(center: Vector, radius: i64, color: Color, thickness: i32) -> (r: (
        Circle,
        Shape,
    ))
        requires
            -CIRCLE_MAX <= center.x <= CIRCLE_MAX,
            -CIRCLE_MAX <= center.y <= CIRCLE_MAX,
            0 <= radius <= CIRCLE_MAX,
            -MAX_THICKNESS <= thickness <= MAX_THICKNESS,
        ensures
            r.1.wf(),
            r.1.origin == center,
            r.1.color == color,
            r.1.thickness == thickness,
            sview(r.1).len() == 4,
            forall|q: int|
                0 <= q < 4 ==> (#[trigger] sview(r.1)[q]) == (
                    circle_quarter(radius as int, fx_mul_spec(radius as int, MAGIC as int), q),
                    Vector { x: 0i64, y: 0i64 },
                    color,
                    thickness as int,
                ),
    {
        proof {
            lemma_abs_mul_le(radius as int, MAGIC as int, CIRCLE_MAX as int, 65536);
            vstd::arithmetic::div_mod::lemma_div_pos_is_pos(radius as int * MAGIC as int, 65536);
            lemma_fx_div_bound(radius as int * MAGIC as int, CIRCLE_MAX as int);
        }
        let step: i64 = fx_mul(radius, MAGIC);
        let zero = Vector { x: 0, y: 0 };
        let mut curves: Vec<Bezier> = Vec::new();
        let mut q0: Vec<Vector> = Vec::new();
        q0.push(Vector { x: radius, y: 0 });
        q0.push(Vector { x: radius, y: step });
        q0.push(Vector { x: step, y: radius });
        q0.push(Vector { x: 0, y: radius });
        let mut q1: Vec<Vector> = Vec::new();
        q1.push(Vector { x: 0, y: radius });
        q1.push(Vector { x: -step, y: radius });
        q1.push(Vector { x: -radius, y: step });
        q1.push(Vector { x: -radius, y: 0 });
        let mut q2: Vec<Vector> = Vec::new();
        q2.push(Vector { x: -radius, y: 0 });
        q2.push(Vector { x: -radius, y: -step });
        q2.push(Vector { x: -step, y: -radius });
        q2.push(Vector { x: 0, y: -radius });
        let mut q3: Vec<Vector> = Vec::new();
        q3.push(Vector { x: 0, y: -radius });
        q3.push(Vector { x: step, y: -radius });
        q3.push(Vector { x: radius, y: -step });
        q3.push(Vector { x: radius, y: 0 });
        proof {
            let ms = fx_mul_spec(radius as int, MAGIC as int);
            assert(q0@ =~= circle_quarter(radius as int, ms, 0));
            assert(q1@ =~= circle_quarter(radius as int, ms, 1));
            assert(q2@ =~= circle_quarter(radius as int, ms, 2));
            assert(q3@ =~= circle_quarter(radius as int, ms, 3));
        }
        curves.push(Bezier { origin: zero, color, thickness, points: q0 });
        curves.push(Bezier { origin: zero, color, thickness, points: q1 });
        curves.push(Bezier { origin: zero, color, thickness, points: q2 });
        curves.push(Bezier { origin: zero, color, thickness, points: q3 });
        let shape = Shape { curves, origin: center, color, thickness };
        proof {
            assert forall|q: int| 0 <= q < 4 implies (#[trigger] sview(shape)[q]) == (
                circle_quarter(radius as int, fx_mul_spec(radius as int, MAGIC as int), q),
                Vector { x: 0i64, y: 0i64 },
                color,
                thickness as int,
            ) by {
                assert(sview(shape)[q] == crate::shape::cview(shape.curves@[q]));
            }
        }
        (Circle, shape)
    }
}

} // verus!
