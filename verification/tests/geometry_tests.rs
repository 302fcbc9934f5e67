//! Tests for the geometric primitives: vectors, binomials, curves,
//! brushes and line rasterization.

use beaverstudio::bezier::Bezier;
use beaverstudio::binomial::binom;
use beaverstudio::bresenham::bresenham_points;
use beaverstudio::brush::Brush;
use beaverstudio::color::Color;
use beaverstudio::fixed::FX_ONE;
use beaverstudio::vector::Vector;

fn white() -> Color {
    Color::new(255, 255, 255)
}

#[test]
fn vector_add_zero_is_identity() {
    let v = Vector::new(12345, -67890);
    let r = v.add(Vector::zero());
    assert_eq!(r, v);
}

#[test]
fn vector_add_then_sub_restores() {
    let v1 = Vector::new(1 << 20, -(1 << 23));
    let v2 = Vector::new(-99991, 77777);
    let r = v1.add(v2).sub(v2);
    assert_eq!(r, v1);
}

#[test]
fn binom_edges_are_one() {
    for n in [0u32, 1, 4, 7, 12, 33] {
        assert_eq!(binom(n, 0), 1);
        assert_eq!(binom(n, n), 1);
    }
}

#[test]
fn binom_four_choose_two_is_six() {
    assert_eq!(binom(4, 2), 6);
}

#[test]
fn binom_row_values() {
    assert_eq!(binom(5, 2), 10);
    assert_eq!(binom(6, 3), 20);
    assert_eq!(binom(12, 6), 924);
}

#[test]
fn bezier_trace_hits_first_point_at_zero() {
    for order in 1..=4usize {
        let mut pts = Vec::new();
        for k in 0..=order {
            pts.push(Vector::new((k as i64) * FX_ONE, (k as i64) * 2 * FX_ONE));
        }
        let origin = Vector::new(3 * FX_ONE, -5 * FX_ONE);
        let b = Bezier::new(pts.clone(), origin, white(), 1);
        let start = b.trace(0);
        assert_eq!(start.x, pts[0].x + origin.x);
        assert_eq!(start.y, pts[0].y + origin.y);
    }
}

#[test]
fn bezier_trace_hits_last_point_at_one() {
    for order in 1..=4usize {
        let mut pts = Vec::new();
        for k in 0..=order {
            pts.push(Vector::new((k as i64) * FX_ONE, -(k as i64) * FX_ONE));
        }
        let origin = Vector::new(-FX_ONE, FX_ONE);
        let b = Bezier::new(pts.clone(), origin, white(), 1);
        let end = b.trace(FX_ONE);
        assert_eq!(end.x, pts[order].x + origin.x);
        assert_eq!(end.y, pts[order].y + origin.y);
    }
}

#[test]
fn bezier_without_points_traces_to_origin() {
    let origin = Vector::new(7 * FX_ONE, 9 * FX_ONE);
    let b = Bezier::new(Vec::new(), origin, white(), 1);
    let v = b.trace(FX_ONE / 2);
    assert_eq!(v, origin);
}

#[test]
fn linear_bezier_midpoint() {
    // A straight line from (0,0) to (2,0): halfway along is (1,0).
    let pts = vec![Vector::new(0, 0), Vector::new(2 * FX_ONE, 0)];
    let b = Bezier::new(pts, Vector::zero(), white(), 1);
    let mid = b.trace(FX_ONE / 2);
    assert_eq!(mid.x, FX_ONE);
    assert_eq!(mid.y, 0);
}

#[test]
fn brush_membership_matches_disk() {
    let th: i32 = 5;
    let b = Brush::new(th);
    for i in -th..th {
        for j in -th..th {
            let inside = 4 * i * i + 4 * j * j <= th * th;
            assert_eq!(b.points.contains(&(i, j)), inside);
        }
    }
    for &(i, j) in &b.points {
        assert!(4 * i * i + 4 * j * j <= th * th);
    }
}

#[test]
fn brush_nonpositive_thickness_is_empty() {
    assert!(Brush::new(0).points.is_empty());
    assert!(Brush::new(-3).points.is_empty());
}

#[test]
fn brush_thickness_one_is_single_point() {
    let b = Brush::new(1);
    assert_eq!(b.points, vec![(0, 0)]);
}

#[test]
fn bresenham_includes_both_endpoints() {
    let line = bresenham_points(3, 4, 17, 9);
    assert_eq!(*line.first().unwrap(), (3, 4));
    assert_eq!(*line.last().unwrap(), (17, 9));
    assert_eq!(line.len(), 15);
}

#[test]
fn bresenham_horizontal_line() {
    let line = bresenham_points(2, 7, 6, 7);
    assert_eq!(line, vec![(2, 7), (3, 7), (4, 7), (5, 7), (6, 7)]);
}

#[test]
fn bresenham_vertical_and_diagonal() {
    let line = bresenham_points(5, 1, 5, 4);
    assert_eq!(line, vec![(5, 1), (5, 2), (5, 3), (5, 4)]);
    let diag = bresenham_points(0, 0, 3, 3);
    assert_eq!(diag, vec![(0, 0), (1, 1), (2, 2), (3, 3)]);
}

#[test]
fn bresenham_gentle_slope() {
    // From (0,0) to (6,2): each step moves one column, the row follows
    // the rounded ideal line.
    let line = bresenham_points(0, 0, 6, 2);
    assert_eq!(
        line,
        vec![(0, 0), (1, 0), (2, 1), (3, 1), (4, 1), (5, 2), (6, 2)]
    );
}

#[test]
fn bresenham_single_point() {
    assert_eq!(bresenham_points(9, 9, 9, 9), vec![(9, 9)]);
}

#[test]
fn to_pixels_rounds_and_clamps() {
    // Center of a 100x100 image.
    let (x, y) = Vector::new(0, 0).to_pixels(100, 100);
    assert_eq!((x, y), (50, 50));
    // One pixel right, one pixel up: rows grow downward.
    let (x, y) = Vector::new(FX_ONE, FX_ONE).to_pixels(100, 100);
    assert_eq!((x, y), (51, 49));
    // Far off the canvas: clamped to the border.
    let (x, y) = Vector::new(1000 * FX_ONE, -1000 * FX_ONE).to_pixels(100, 100);
    assert_eq!((x, y), (99, 99));
    let (x, y) = Vector::new(-1000 * FX_ONE, 1000 * FX_ONE).to_pixels(100, 100);
    assert_eq!((x, y), (0, 0));
}
