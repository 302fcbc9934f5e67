//! Tests for the easing transform and the frame sequencer.

use beaverstudio::bezier::Bezier;
use beaverstudio::color::Color;
use beaverstudio::ease::ease;
use beaverstudio::fixed::FX_HALF;
use beaverstudio::fixed::FX_ONE;
use beaverstudio::shape::Shape;
use beaverstudio::vector::Vector;
use beaverstudio::video::Video;

fn black() -> Color {
    Color::new(0, 0, 0)
}

fn white() -> Color {
    Color::new(255, 255, 255)
}

fn center_line() -> Shape {
    // A horizontal straight line through the canvas center, from
    // (-20, 0) to (20, 0).
    let pts = vec![Vector::new(-20 * FX_ONE, 0), Vector::new(20 * FX_ONE, 0)];
    let b = Bezier::new(pts, Vector::zero(), white(), 1);
    Shape::new(vec![b], Vector::zero()).unwrap()
}

#[test]
fn ease_fixes_zero_half_one() {
    assert_eq!(ease(0), 0);
    assert_eq!(ease(FX_HALF), FX_HALF);
    assert_eq!(ease(FX_ONE), FX_ONE);
}

#[test]
fn ease_is_monotone_non_decreasing() {
    let mut prev: i64 = 0;
    let mut p: i64 = 0;
    while p <= FX_ONE {
        let e = ease(p);
        assert!(e >= prev, "ease({p}) = {e} dropped below {prev}");
        assert!((0..=FX_ONE).contains(&e));
        prev = e;
        p += 13;
    }
    assert_eq!(ease(FX_ONE), FX_ONE);
}

#[test]
fn ease_is_slow_near_the_ends() {
    // The cosine ease starts and ends with zero slope: near the ends
    // it falls below the identity, near the middle it crosses it.
    assert!(ease(FX_ONE / 8) < FX_ONE / 8);
    assert!(ease(FX_ONE - FX_ONE / 8) > FX_ONE - FX_ONE / 8);
}

#[test]
fn video_frame_count_rounds_seconds_times_fps() {
    let v = Video::new((100, 100), black(), 24 * FX_ONE, 2 * FX_ONE);
    assert_eq!(v.frame_count(), 48);
    // Half a second at one frame per second rounds up to one frame.
    let v = Video::new((100, 100), black(), FX_ONE, FX_HALF);
    assert_eq!(v.frame_count(), 1);
}

#[test]
fn end_to_end_single_frame_line() {
    // A 100x100 video, one frame per second, one second long, black
    // background, with the center line shown by a static display.
    let mut video = Video::new((100, 100), black(), FX_ONE, FX_ONE);
    video.add(center_line().get_display(), Vector::zero(), 0, FX_ONE);
    assert_eq!(video.frame_count(), 1);

    let frame = video.render_frame(0);
    assert_eq!(frame.img.width(), 100);
    assert_eq!(frame.img.height(), 100);

    // The non-background pixels are exactly the rasterized path
    // between the two transformed endpoints: row 50, columns 30..=70.
    for y in 0..100u32 {
        for x in 0..100u32 {
            let expected: [u8; 3] = if y == 50 && (30..=70).contains(&x) {
                [255, 255, 255]
            } else {
                [0, 0, 0]
            };
            assert_eq!(frame.img.get_pixel(x, y).0, expected, "pixel ({x}, {y})");
        }
    }
}

#[test]
fn degenerate_window_never_paints() {
    // An instance whose start and end frames coincide is skipped on
    // every frame: no division by zero, no stray paint.
    let mut video = Video::new((50, 50), black(), FX_ONE, 3 * FX_ONE);
    video.add(center_line().get_display(), Vector::zero(), FX_ONE, FX_ONE);
    assert_eq!(video.frame_count(), 3);
    for k in 0..3u32 {
        let frame = video.render_frame(k);
        for y in 0..50u32 {
            for x in 0..50u32 {
                assert_eq!(frame.img.get_pixel(x, y).0, [0, 0, 0]);
            }
        }
    }
}

#[test]
fn inactive_before_start_and_after_end() {
    // Three-second video; the line is shown only during the second
    // second, so the first and last frames stay pure background.
    let mut video = Video::new((50, 50), black(), FX_ONE, 3 * FX_ONE);
    video.add(center_line().get_display(), Vector::zero(), FX_ONE, 2 * FX_ONE);
    let count_non_black = |frame: &beaverstudio::frame::Frame| {
        let mut n = 0;
        for y in 0..50u32 {
            for x in 0..50u32 {
                if frame.img.get_pixel(x, y).0 != [0, 0, 0] {
                    n += 1;
                }
            }
        }
        n
    };
    assert_eq!(count_non_black(&video.render_frame(0)), 0);
    assert!(count_non_black(&video.render_frame(1)) > 0);
    assert!(count_non_black(&video.render_frame(2)) > 0);
}

#[test]
fn placement_shifts_the_drawing() {
    // The same line placed ten pixels to the right paints the same
    // row, shifted by ten columns.
    let mut centered = Video::new((100, 100), black(), FX_ONE, FX_ONE);
    centered.add(center_line().get_display(), Vector::zero(), 0, FX_ONE);
    let mut shifted = Video::new((100, 100), black(), FX_ONE, FX_ONE);
    shifted.add(center_line().get_display(), Vector::new(10 * FX_ONE, 0), 0, FX_ONE);

    let a = centered.render_frame(0);
    let b = shifted.render_frame(0);
    for y in 0..100u32 {
        for x in 0..90u32 {
            assert_eq!(a.img.get_pixel(x, y).0, b.img.get_pixel(x + 10, y).0);
        }
    }
}
