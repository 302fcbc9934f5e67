//! Coordinate axes with evenly spaced gridlines.

use vstd::prelude::*;

use crate::bezier::Bezier;
use crate::color::Color;
use crate::shape::Shape;
use crate::shape::sview;
use crate::vector::Vector;

verus! {

/// Color for major gridlines.
pub open spec fn major_color() -> Color {
    Color { r: 255, g: 255, b: 255 }
}

/// Color for minor gridlines.
pub open spec fn minor_color() -> Color {
    Color { r: 160, g: 160, b: 160 }
}

/// Thickness for major gridlines.
pub const MAJOR_THICKNESS: i32 = 4;

/// Thickness for minor gridlines.
pub const MINOR_THICKNESS: i32 = 2;

/// Magnitude bound on the axes' origin coordinates and on the span of
/// the gridlines to either side.
pub const AXES_MAX: i64 = 0x400_0000;

/// Most gridlines a set of axes may carry to either side.
pub const AXES_COUNT_MAX: usize = 1000;

/// Linear-linear coordinate axes: a shape of minor gridlines at even
/// spacing to both sides of two major axis lines.
#[derive(Clone, Debug)]
pub struct LinearAxes(pub Shape);

/// The coordinate of minor gridline `i` on one axis: the `pos` lines
/// above the origin come first, then the lines below.
pub open spec fn grid_coord(o: int, spacing: int, pos: int, i: int) -> int {
    if i < pos {
        o + (i + 1) * spacing
    } else {
        o - (i + 1 - pos) * spacing
    }
}

/// A straight gridline between two points, with the given color and
/// thickness, as a curve view.
pub open spec fn gridline(a: Vector, b: Vector, c: Color, th: int) -> (
    Seq<Vector>,
    Vector,
    Color,
    int,
) {
    (seq![a, b], Vector { x: 0i64, y: 0i64 }, c, th)
}

impl LinearAxes {
    /// Create a set of coordinate axes with a specified origin, line
    /// spacing, and line count: minor vertical gridlines at every
    /// spacing step left and right of the origin, minor horizontal
    /// gridlines above and below, and one major line along each axis,
    /// all spanning the gridded rectangle.
    pub fn new(
        origin: Vector,
        spacing: i64,
        x_count: (usize, usize),
        y_count: (usize, usize),
    ) -> (r: LinearAxes)
        requires
            -AXES_MAX <= origin.x <= AXES_MAX,
            -AXES_MAX <= origin.y <= AXES_MAX,
            0 <= spacing,
            x_count.0 <= AXES_COUNT_MAX,
            x_count.1 <= AXES_COUNT_MAX,
            y_count.0 <= AXES_COUNT_MAX,
            y_count.1 <= AXES_COUNT_MAX,
            (AXES_COUNT_MAX as int) * spacing <= AXES_MAX,
        ensures
            r.0.wf(),
            r.0.origin == (Vector { x: 0i64, y: 0i64 }),
            sview(r.0).len() == x_count.0 + x_count.1 + y_count.0 + y_count.1 + 2,
            ({
                let nx = x_count.0 + x_count.1;
                let ny = y_count.0 + y_count.1;
                let xmin = origin.x - x_count.0 * spacing;
                let xmax = origin.x + x_count.1 * spacing;
                let ymin = origin.y - y_count.0 * spacing;
                let ymax = origin.y + y_count.1 * spacing;
                &&& (forall|i: int|
                    0 <= i < nx ==> (#[trigger] sview(r.0)[i]) == gridline(
                        Vector { x: grid_coord(origin.x as int, spacing as int, x_count.1 as int, i) as i64, y: ymin as i64 },
                        Vector { x: grid_coord(origin.x as int, spacing as int, x_count.1 as int, i) as i64, y: ymax as i64 },
                        minor_color(),
                        MINOR_THICKNESS as int,
                    ))
                &&& (forall|i: int|
                    0 <= i < ny ==> (#[trigger] sview(r.0)[nx + i]) == gridline(
                        Vector { x: xmin as i64, y: grid_coord(origin.y as int, spacing as int, y_count.1 as int, i) as i64 },
                        Vector { x: xmax as i64, y: grid_coord(origin.y as int, spacing as int, y_count.1 as int, i) as i64 },
                        minor_color(),
                        MINOR_THICKNESS as int,
                    ))
                &&& sview(r.0)[nx + ny] == gridline(
                    Vector { x: origin.x, y: ymin as i64 },
                    Vector { x: origin.x, y: ymax as i64 },
                    major_color(),
                    MAJOR_THICKNESS as int,
                )
                &&& sview(r.0)[nx + ny + 1] == gridline(
                    Vector { x: xmin as i64, y: origin.y },
                    Vector { x: xmax as i64, y: origin.y },
                    major_color(),
                    MAJOR_THICKNESS as int,
                )
            }),
    {
        let nx: usize = x_count.0 + x_count.1;
        let ny: usize = y_count.0 + y_count.1;
        proof {
            lemma_span_bounds(origin.x as int, spacing as int, x_count.0 as int);
            lemma_span_bounds(origin.x as int, spacing as int, x_count.1 as int);
            lemma_span_bounds(origin.y as int, spacing as int, y_count.0 as int);
            lemma_span_bounds(origin.y as int, spacing as int, y_count.1 as int);
        }
        let xmin: i64 = origin.x - (x_count.0 as i64) * spacing;
        let xmax: i64 = origin.x + (x_count.1 as i64) * spacing;
        let ymin: i64 = origin.y - (y_count.0 as i64) * spacing;
        let ymax: i64 = origin.y + (y_count.1 as i64) * spacing;
        let zero = Vector { x: 0, y: 0 };
        let mut curves: Vec<Bezier> = Vec::new();
        let mut i: usize = 0;
        while i < nx
            invariant
                -AXES_MAX <= origin.x <= AXES_MAX,
                -AXES_MAX <= origin.y <= AXES_MAX,
                0 <= spacing,
                x_count.0 <= AXES_COUNT_MAX,
                x_count.1 <= AXES_COUNT_MAX,
                nx == x_count.0 + x_count.1 <= 2 * AXES_COUNT_MAX,
                (AXES_COUNT_MAX as int) * spacing <= AXES_MAX,
                -2 * AXES_MAX <= ymin <= 2 * AXES_MAX,
                -2 * AXES_MAX <= ymax <= 2 * AXES_MAX,
                i <= nx,
                curves@.len() == i,
                forall|j: int| 0 <= j < i ==> (#[trigger] curves@[j]).wf(),
                forall|j: int|
                    0 <= j < i ==> (#[trigger] crate::shape::cview(curves@[j])) == gridline(
                        Vector { x: grid_coord(origin.x as int, spacing as int, x_count.1 as int, j) as i64, y: ymin as i64 },
                        Vector { x: grid_coord(origin.x as int, spacing as int, x_count.1 as int, j) as i64, y: ymax as i64 },
                        minor_color(),
                        MINOR_THICKNESS as int,
                    ),
            decreases nx - i,
        {
            proof {
                lemma_grid_coord_bounds(origin.x as int, spacing as int, x_count.1 as int, i as int);
            }
            let xv: i64 = grid_coord_exec(origin.x, spacing, x_count.1, i);
            push_line(
                &mut curves,
                Vector { x: xv, y: ymin },
                Vector { x: xv, y: ymax },
                Color { r: 160, g: 160, b: 160 },
                MINOR_THICKNESS,
            );
            i = i + 1;
        }
        let mut i2: usize = 0;
        while i2 < ny
            invariant
                -AXES_MAX <= origin.x <= AXES_MAX,
                -AXES_MAX <= origin.y <= AXES_MAX,
                0 <= spacing,
                x_count.0 <= AXES_COUNT_MAX,
                x_count.1 <= AXES_COUNT_MAX,
                y_count.0 <= AXES_COUNT_MAX,
                y_count.1 <= AXES_COUNT_MAX,
                nx == x_count.0 + x_count.1 <= 2 * AXES_COUNT_MAX,
                ny == y_count.0 + y_count.1 <= 2 * AXES_COUNT_MAX,
                (AXES_COUNT_MAX as int) * spacing <= AXES_MAX,
                -2 * AXES_MAX <= xmin <= 2 * AXES_MAX,
                -2 * AXES_MAX <= xmax <= 2 * AXES_MAX,
                -2 * AXES_MAX <= ymin <= 2 * AXES_MAX,
                -2 * AXES_MAX <= ymax <= 2 * AXES_MAX,
                i2 <= ny,
                curves@.len() == nx + i2,
                forall|j: int| 0 <= j < curves@.len() ==> (#[trigger] curves@[j]).wf(),
                forall|j: int|
                    0 <= j < nx ==> (#[trigger] crate::shape::cview(curves@[j])) == gridline(
                        Vector { x: grid_coord(origin.x as int, spacing as int, x_count.1 as int, j) as i64, y: ymin as i64 },
                        Vector { x: grid_coord(origin.x as int, spacing as int, x_count.1 as int, j) as i64, y: ymax as i64 },
                        minor_color(),
                        MINOR_THICKNESS as int,
                    ),
                forall|j: int|
                    0 <= j < i2 ==> (#[trigger] crate::shape::cview(curves@[nx + j])) == gridline(
                        Vector { x: xmin as i64, y: grid_coord(origin.y as int, spacing as int, y_count.1 as int, j) as i64 },
                        Vector { x: xmax as i64, y: grid_coord(origin.y as int, spacing as int, y_count.1 as int, j) as i64 },
                        minor_color(),
                        MINOR_THICKNESS as int,
                    ),
            decreases ny - i2,
        {
            proof {
                lemma_grid_coord_bounds(origin.y as int, spacing as int, y_count.1 as int, i2 as int);
            }
            let yv: i64 = grid_coord_exec(origin.y, spacing, y_count.1, i2);
            push_line(
                &mut curves,
                Vector { x: xmin, y: yv },
                Vector { x: xmax, y: yv },
                Color { r: 160, g: 160, b: 160 },
                MINOR_THICKNESS,
            );
            i2 = i2 + 1;
        }
        push_line(
            &mut curves,
            Vector { x: origin.x, y: ymin },
            Vector { x: origin.x, y: ymax },
            Color { r: 255, g: 255, b: 255 },
            MAJOR_THICKNESS,
        );
        push_line(
            &mut curves,
            Vector { x: xmin, y: origin.y },
            Vector { x: xmax, y: origin.y },
            Color { r: 255, g: 255, b: 255 },
            MAJOR_THICKNESS,
        );
        let shape = Shape {
            curves,
            origin: zero,
            color: Color { r: 160, g: 160, b: 160 },
            thickness: MINOR_THICKNESS,
        };
        proof {
            assert(forall|j: int|
                0 <= j < sview(shape).len() ==> (#[trigger] sview(shape)[j]) == crate::shape::cview(
                    shape.curves@[j],
                ));
        }
        LinearAxes(shape)
    }

    /// Extract the chain of Bezier curves.
    pub fn get_shape(&self) -> (s: Shape)
        ensures
            sview(s) == sview(self.0),
            s.origin == self.0.origin,
            s.color == self.0.color,
            s.thickness == self.0.thickness,
            self.0.wf() ==> s.wf(),
    {
        self.0.duplicate()
    }
}

/// The whole gridded span stays within twice the axes bound.
proof fn lemma_span_bounds(o: int, spacing: int, count: int)
    requires
        -AXES_MAX <= o <= AXES_MAX,
        0 <= spacing,
        0 <= count <= AXES_COUNT_MAX,
        (AXES_COUNT_MAX as int) * spacing <= AXES_MAX,
    ensures
        0 <= count * spacing <= AXES_MAX,
        -2 * AXES_MAX <= o - count * spacing,
        o + count * spacing <= 2 * AXES_MAX,
{
    assert(0 <= count * spacing && count * spacing <= (AXES_COUNT_MAX as int) * spacing)
        by (nonlinear_arith)
        requires 0 <= spacing && 0 <= count <= AXES_COUNT_MAX,
    ;
}

/// Every minor gridline coordinate stays within twice the axes bound.
proof fn lemma_grid_coord_bounds(o: int, spacing: int, pos: int, i: int)
    requires
        -AXES_MAX <= o <= AXES_MAX,
        0 <= spacing,
        0 <= pos <= AXES_COUNT_MAX,
        0 <= i,
        i < pos || i + 1 - pos <= AXES_COUNT_MAX,
        (AXES_COUNT_MAX as int) * spacing <= AXES_MAX,
    ensures
        -2 * AXES_MAX <= grid_coord(o, spacing, pos, i) <= 2 * AXES_MAX,
{
    if i < pos {
        assert(0 <= (i + 1) * spacing <= (AXES_COUNT_MAX as int) * spacing) by (nonlinear_arith)
            requires 0 <= spacing && 0 <= i + 1 <= AXES_COUNT_MAX,
        ;
    } else {
        assert(0 <= (i + 1 - pos) * spacing <= (AXES_COUNT_MAX as int) * spacing)
            by (nonlinear_arith)
            requires 0 <= spacing && 0 <= i + 1 - pos <= AXES_COUNT_MAX,
        ;
    }
}

/// Compute the coordinate of minor gridline `i`.
fn grid_coord_exec(o: i64, spacing: i64, pos: usize, i: usize) -> (r: i64)
    requires
        -AXES_MAX <= o <= AXES_MAX,
        0 <= spacing,
        pos <= AXES_COUNT_MAX,
        i < 2 * AXES_COUNT_MAX,
        (AXES_COUNT_MAX as int) * spacing <= AXES_MAX,
        i < pos || i + 1 - pos <= AXES_COUNT_MAX,
    ensures
        r == grid_coord(o as int, spacing as int, pos as int, i as int),
        -2 * AXES_MAX <= r <= 2 * AXES_MAX,
{
    if i < pos {
        proof {
            assert(0 <= (i as int + 1) * spacing <= (AXES_COUNT_MAX as int) * spacing)
                by (nonlinear_arith)
                requires 0 <= spacing && 0 <= i as int + 1 <= AXES_COUNT_MAX,
            ;
        }
        o + ((i + 1) as i64) * spacing
    } else {
        proof {
            assert(0 <= (i as int + 1 - pos as int) * spacing <= (AXES_COUNT_MAX as int) * spacing)
                by (nonlinear_arith)
                requires 0 <= spacing && 0 <= i as int + 1 - pos as int <= AXES_COUNT_MAX,
            ;
        }
        o - ((i + 1 - pos) as i64) * spacing
    }
}

/// Append one straight gridline to the curve list.
fn push_line(curves: &mut Vec<Bezier>, a: Vector, b: Vector, c: Color, th: i32)
    requires
        -2 * AXES_MAX <= a.x <= 2 * AXES_MAX,
        -2 * AXES_MAX <= a.y <= 2 * AXES_MAX,
        -2 * AXES_MAX <= b.x <= 2 * AXES_MAX,
        -2 * AXES_MAX <= b.y <= 2 * AXES_MAX,
        -crate::bezier::MAX_THICKNESS <= th <= crate::bezier::MAX_THICKNESS,
    ensures
        final(curves)@.len() == old(curves)@.len() + 1,
        forall|j: int| 0 <= j < old(curves)@.len() ==> final(curves)@[j] == old(curves)@[j],
        crate::shape::cview(final(curves)@[old(curves)@.len() as int]) == gridline(
            a,
            b,
            c,
            th as int,
        ),
        final(curves)@[old(curves)@.len() as int].wf(),
{
    let mut pts: Vec<Vector> = Vec::new();
    pts.push(a);
    pts.push(b);
    proof {
        assert(pts@ =~= seq![a, b]);
    }
    curves.push(Bezier { origin: Vector { x: 0, y: 0 }, color: c, thickness: th, points: pts });
}

} // verus!
