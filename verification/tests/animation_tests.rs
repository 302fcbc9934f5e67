//! Tests for shapes, animations, blending and tracing.

use beaverstudio::animation::Animation;
use beaverstudio::bezier::Bezier;
use beaverstudio::color::Color;
use beaverstudio::color::color_lerp;
use beaverstudio::fixed::FX_HALF;
use beaverstudio::fixed::FX_ONE;
use beaverstudio::frame::Frame;
use beaverstudio::frame::frame_new;
use beaverstudio::interpolate::Interpolate;
use beaverstudio::shape::GeometryError;
use beaverstudio::shape::Shape;
use beaverstudio::vector::Vector;

fn colored(r: u8, g: u8, b: u8) -> Color {
    Color::new(r, g, b)
}

fn line_shape(x0: i64, y0: i64, x1: i64, y1: i64, c: Color) -> Shape {
    let pts = vec![Vector::new(x0, y0), Vector::new(x1, y1)];
    let b = Bezier::new(pts, Vector::zero(), c, 1);
    Shape::new(vec![b], Vector::zero()).unwrap()
}

fn non_background(img: &Frame) -> Vec<(u32, u32)> {
    let mut out = Vec::new();
    for y in 0..img.img.height() {
        for x in 0..img.img.width() {
            if img.img.get_pixel(x, y).0 != [0, 0, 0] {
                out.push((x, y));
            }
        }
    }
    out
}

#[test]
fn shape_trace_matches_first_curve_at_zero() {
    let c1 = Bezier::new(
        vec![Vector::new(FX_ONE, 0), Vector::new(2 * FX_ONE, 0)],
        Vector::zero(),
        colored(9, 9, 9),
        1,
    );
    let c2 = Bezier::new(
        vec![Vector::new(2 * FX_ONE, 0), Vector::new(3 * FX_ONE, FX_ONE)],
        Vector::zero(),
        colored(9, 9, 9),
        1,
    );
    let origin = Vector::new(10 * FX_ONE, -4 * FX_ONE);
    let first_start = c1.trace(0);
    let last_end = c2.trace(FX_ONE);
    let s = Shape::new(vec![c1, c2], origin).unwrap();
    let start = s.trace(0);
    let end = s.trace(FX_ONE);
    assert_eq!(start, Vector::new(origin.x + first_start.x, origin.y + first_start.y));
    assert_eq!(end, Vector::new(origin.x + last_end.x, origin.y + last_end.y));
}

#[test]
fn shape_needs_at_least_one_curve() {
    let r = Shape::new(Vec::new(), Vector::zero());
    assert_eq!(r.unwrap_err(), GeometryError::EmptyGeometry);
}

#[test]
fn shape_inherits_color_and_thickness_from_first_curve() {
    let c = Bezier::new(
        vec![Vector::new(0, 0), Vector::new(FX_ONE, 0)],
        Vector::zero(),
        colored(1, 2, 3),
        7,
    );
    let s = Shape::new(vec![c], Vector::zero()).unwrap();
    assert_eq!(s.color, colored(1, 2, 3));
    assert_eq!(s.thickness, 7);
}

#[test]
fn interpolate_rejects_mismatched_topology() {
    let a = line_shape(0, 0, FX_ONE, 0, colored(255, 0, 0));
    // A quadratic: three control points against the line's two.
    let q = Bezier::new(
        vec![Vector::new(0, 0), Vector::new(FX_ONE, FX_ONE), Vector::new(2 * FX_ONE, 0)],
        Vector::zero(),
        colored(0, 255, 0),
        1,
    );
    let b = Shape::new(vec![q], Vector::zero()).unwrap();
    let r = Interpolate::new(a, b);
    assert_eq!(r.unwrap_err(), GeometryError::GeometryMismatch);
}

#[test]
fn interpolate_accepts_matching_topology() {
    let a = line_shape(0, 0, FX_ONE, 0, colored(255, 0, 0));
    let b = line_shape(0, FX_ONE, FX_ONE, FX_ONE, colored(0, 255, 0));
    assert!(Interpolate::new(a, b).is_ok());
}

#[test]
fn color_blend_endpoints_and_midpoint() {
    let a = colored(10, 200, 0);
    let b = colored(20, 100, 255);
    assert_eq!(color_lerp(a, b, 0), a);
    assert_eq!(color_lerp(a, b, FX_ONE), b);
    // Midpoint, each channel rounded half up.
    assert_eq!(color_lerp(a, b, FX_HALF), colored(15, 150, 128));
}

#[test]
fn interpolate_at_zero_reproduces_shape_one() {
    let red = colored(255, 0, 0);
    let green = colored(0, 255, 0);
    let one = line_shape(-10 * FX_ONE, 0, 10 * FX_ONE, 0, red);
    let two = line_shape(-10 * FX_ONE, 5 * FX_ONE, 10 * FX_ONE, 5 * FX_ONE, green);
    let ip = Interpolate::new(one.clone(), two.clone()).unwrap();
    let anim = Animation::Interpolate(ip);

    let mut blended = frame_new(40, 40);
    anim.play(0).draw(Vector::zero(), &mut blended);

    let mut reference = frame_new(40, 40);
    one.draw(Vector::zero(), &mut reference);

    // Point for point the same pixels, and the pure color of "one".
    assert_eq!(non_background(&blended), non_background(&reference));
    for &(x, y) in non_background(&blended).iter() {
        assert_eq!(blended.img.get_pixel(x, y).0, [255, 0, 0]);
    }
    assert!(!non_background(&blended).is_empty());
}

#[test]
fn interpolate_at_one_reproduces_shape_two() {
    let red = colored(255, 0, 0);
    let green = colored(0, 255, 0);
    let one = line_shape(-10 * FX_ONE, 0, 10 * FX_ONE, 0, red);
    let two = line_shape(-10 * FX_ONE, 5 * FX_ONE, 10 * FX_ONE, 5 * FX_ONE, green);
    let ip = Interpolate::new(one.clone(), two.clone()).unwrap();
    let anim = Animation::Interpolate(ip);

    let mut blended = frame_new(40, 40);
    anim.play(FX_ONE).draw(Vector::zero(), &mut blended);

    let mut reference = frame_new(40, 40);
    two.draw(Vector::zero(), &mut reference);

    assert_eq!(non_background(&blended), non_background(&reference));
    for &(x, y) in non_background(&blended).iter() {
        assert_eq!(blended.img.get_pixel(x, y).0, [0, 255, 0]);
    }
}

#[test]
fn interpolate_at_half_draws_midline() {
    let red = colored(255, 0, 0);
    let green = colored(0, 255, 0);
    // Two horizontal lines, 8 pixels apart: the blend at one half is
    // the line exactly in between.
    let one = line_shape(-10 * FX_ONE, 4 * FX_ONE, 10 * FX_ONE, 4 * FX_ONE, red);
    let two = line_shape(-10 * FX_ONE, -4 * FX_ONE, 10 * FX_ONE, -4 * FX_ONE, green);
    let ip = Interpolate::new(one, two).unwrap();
    let anim = Animation::Interpolate(ip);

    let mut blended = frame_new(40, 40);
    anim.play(FX_HALF).draw(Vector::zero(), &mut blended);

    let pixels = non_background(&blended);
    assert!(!pixels.is_empty());
    for &(x, y) in pixels.iter() {
        // Midway between rows 16 and 24 on a 40-pixel canvas.
        assert_eq!(y, 20, "pixel ({x}, {y}) off the midline");
        // Per-channel midpoint color, rounded half up.
        assert_eq!(blended.img.get_pixel(x, y).0, [128, 128, 0]);
    }
}

#[test]
fn trace_at_zero_draws_nothing() {
    let s = line_shape(-10 * FX_ONE, 0, 10 * FX_ONE, 0, colored(255, 255, 255));
    let anim = s.get_trace();
    let mut img = frame_new(40, 40);
    anim.play(0).draw(Vector::zero(), &mut img);
    assert!(non_background(&img).is_empty());
}

#[test]
fn trace_at_one_draws_full_outline() {
    // Thickness one: the brush is the single center offset, so the
    // traced stroke covers exactly the same pixels as the raw draw.
    let s = line_shape(-10 * FX_ONE, 0, 10 * FX_ONE, 0, colored(255, 255, 255));
    let anim = s.get_trace();
    let mut traced = frame_new(40, 40);
    anim.play(FX_ONE).draw(Vector::zero(), &mut traced);

    let mut reference = frame_new(40, 40);
    s.draw(Vector::zero(), &mut reference);

    assert_eq!(non_background(&traced), non_background(&reference));
    assert!(!non_background(&traced).is_empty());
}

#[test]
fn display_ignores_progress() {
    let s = line_shape(-5 * FX_ONE, 0, 5 * FX_ONE, 0, colored(255, 255, 255));
    let anim = s.get_display();
    let mut at_zero = frame_new(30, 30);
    anim.play(0).draw(Vector::zero(), &mut at_zero);
    let mut at_half = frame_new(30, 30);
    anim.play(FX_HALF).draw(Vector::zero(), &mut at_half);
    assert_eq!(non_background(&at_zero), non_background(&at_half));
}
