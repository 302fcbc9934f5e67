//! The frame sequencer.
//!
//! A video owns canvas dimensions, a background color, a frame rate, a
//! duration, and a list of animation instances, each with a placement
//! and a frame window.  Each output frame is the background overlaid
//! with every active instance's snapshot, painted in list order.

use vstd::prelude::*;

use crate::animation::Animation;
use crate::color::Color;
use crate::ease::ease;
use crate::ease::ease_spec;
use crate::fixed::FX_ONE;
use crate::fixed::div_floor;
use crate::fixed::lemma_abs_mul_le;
use crate::frame::Frame;
use crate::frame::frame_fill;
use crate::frame::frame_new;
use crate::frame::frame_wf;
use crate::frame::img_dims;
use crate::frame::img_pixels;
use crate::frame::lemma_fill_solid;
use crate::frame::solid_grid;
use crate::vector::Vector;

verus! {

/// Magnitude bound on the fixed-point frame rate and timestamps a
/// well-formed video accepts: 32768 at the fixed-point scale.
pub const TIME_MAX: i64 = 0x8000_0000;

/// Largest canvas side length a well-formed video accepts.
pub const DIM_MAX: u32 = 16384;

/// An animation placed in a video: where it paints and during which
/// frame window it is active.
#[derive(Clone, Debug)]
pub struct Instance {
    /// The animation to play.
    pub animation: Animation,
    /// Where its coordinate origin sits on the canvas.
    pub placement: Vector,
    /// The first frame of its active window.
    pub start_frame: u32,
    /// The last frame of its active window.
    pub end_frame: u32,
}

impl Instance {
    /// The instance's animation and placement are well formed.
    pub open spec fn wf(self) -> bool {
        &&& self.animation.wf()
        &&& self.placement.wf()
    }
}

/// Whether an instance with this frame window paints on frame `k`:
/// the window must contain `k` and must not be degenerate, so that a
/// progress can be formed without dividing by zero.
pub open spec fn instance_active(start: int, end: int, k: int) -> bool {
    start <= k <= end && start < end
}

/// The raw linear progress of frame `k` through the window.
pub open spec fn raw_progress(start: int, end: int, k: int) -> int {
    (k - start) * (FX_ONE as int) / (end - start)
}

/// Frames from fixed-point seconds: `round(seconds * fps)`.
pub open spec fn frames_of(s: int, fps: int) -> int {
    (s * fps + 0x8000_0000) / 0x1_0000_0000
}

/// A video, represented as a series of still frames.
#[derive(Debug)]
pub struct Video {
    /// Video width in pixels.
    pub width: u32,
    /// Video height in pixels.
    pub height: u32,
    /// Background color.
    pub background: Color,
    /// Video frame rate in frames per second, fixed-point.
    pub fps: i64,
    /// Video duration in seconds, fixed-point.
    pub duration: i64,
    /// Video animations, each with its placement and frame window.
    pub animations: Vec<Instance>,
}

impl Video {
    /// Dimensions, rate, duration and every instance stay within the
    /// ranges the renderer's arithmetic is proved for.
    pub open spec fn wf(self) -> bool {
        &&& 1 <= self.width <= DIM_MAX
        &&& 1 <= self.height <= DIM_MAX
        &&& 0 <= self.fps <= TIME_MAX
        &&& 0 <= self.duration <= TIME_MAX
        &&& (forall|i: int| 0 <= i < self.animations@.len() ==> (#[trigger] self.animations@[i]).wf())
    }

    /// Construct a new video with no animations yet.
    pub fn new(size: (u32, u32), background: Color, fps: i64, duration: i64) -> (v: Video)
        ensures
            v.width == size.0,
            v.height == size.1,
            v.background == background,
            v.fps == fps,
            v.duration == duration,
            v.animations@.len() == 0,
    {
        Video {
            width: size.0,
            height: size.1,
            background,
            fps,
            duration,
            animations: Vec::new(),
        }
    }

    /// Convert a fixed-point timestamp to a frame index.
    fn seconds_to_frames(&self, s: i64) -> (n: u32)
        requires
            0 <= s <= TIME_MAX,
            0 <= self.fps <= TIME_MAX,
        ensures
            n == frames_of(s as int, self.fps as int),
    {
        proof {
            lemma_abs_mul_le(s as int, self.fps as int, TIME_MAX as int, TIME_MAX as int);
            assert(0 <= (s as int) * (self.fps as int)) by (nonlinear_arith)
                requires 0 <= s && 0 <= self.fps,
            ;
        }
        let num: i64 = s * self.fps + 0x8000_0000;
        let f: i64 = div_floor(num, 0x1_0000_0000);
        proof {
            vstd::arithmetic::div_mod::lemma_div_pos_is_pos(num as int, 0x1_0000_0000);
            vstd::arithmetic::div_mod::lemma_div_is_ordered(
                num as int,
                0x1_0000_0000int * 0x1_0000_0000int,
                0x1_0000_0000,
            );
            vstd::arithmetic::div_mod::lemma_div_multiples_vanish(0x1_0000_0000, 0x1_0000_0000);
        }
        f as u32
    }

    /// Add an animation to this video.  The timestamps are fixed-point
    /// seconds; they become frame indices here, once, by rounding
    /// `seconds * fps` to the nearest frame.  No window validation is
    /// done: an out-of-range or backward window simply never
    /// activates.
    pub fn add(&mut self, animation: Animation, location: Vector, start: i64, end: i64)
        requires
            0 <= start <= TIME_MAX,
            0 <= end <= TIME_MAX,
            0 <= old(self).fps <= TIME_MAX,
        ensures
            final(self).width == old(self).width,
            final(self).height == old(self).height,
            final(self).background == old(self).background,
            final(self).fps == old(self).fps,
            final(self).duration == old(self).duration,
            final(self).animations@ == old(self).animations@.push(
                Instance {
                    animation,
                    placement: location,
                    start_frame: frames_of(start as int, old(self).fps as int) as u32,
                    end_frame: frames_of(end as int, old(self).fps as int) as u32,
                },
            ),
    {
        let start_frame: u32 = self.seconds_to_frames(start);
        let end_frame: u32 = self.seconds_to_frames(end);
        self.animations.push(
            Instance { animation, placement: location, start_frame, end_frame },
        );
    }

    /// How many frames this video renders: `round(duration * fps)`.
    pub fn frame_count(&self) -> (n: u32)
        requires
            0 <= self.duration <= TIME_MAX,
            0 <= self.fps <= TIME_MAX,
        ensures
            n == frames_of(self.duration as int, self.fps as int),
    {
        self.seconds_to_frames(self.duration)
    }
}

/// The pixel grid of frame `k` after the first `i` instances have had
/// their turn: the background, overlaid by each active instance's
/// snapshot in list order.
pub open spec fn paint_upto(v: Video, k: int, i: int) -> Map<(int, int), (u8, u8, u8)>
    decreases i,
{
    if i <= 0 {
        solid_grid(v.width as nat, v.height as nat, v.background)
    } else {
        let m = paint_upto(v, k, i - 1);
        let inst = v.animations@[i - 1];
        if instance_active(inst.start_frame as int, inst.end_frame as int, k) {
            inst.animation.effect(
                ease_spec(
                    raw_progress(inst.start_frame as int, inst.end_frame as int, k),
                ),
                inst.placement,
                v.width as nat,
                v.height as nat,
                m,
            )
        } else {
            m
        }
    }
}

/// The finished pixel grid of frame `k`.
pub open spec fn frame_spec(v: Video, k: int) -> Map<(int, int), (u8, u8, u8)> {
    paint_upto(v, k, v.animations@.len() as int)
}

impl Video {
    /// Render frame `k`: fill a fresh buffer with the background,
    /// then, for each instance whose window contains `k`, ease the
    /// frame's linear progress through the window and paint the
    /// instance's snapshot; later instances overwrite earlier ones.
    pub fn render_frame(&self, k: u32) -> (f: Frame)
        requires
            self.wf(),
        ensures
            img_dims(f) == (self.width as nat, self.height as nat),
            frame_wf(f),
            img_pixels(f) == frame_spec(*self, k as int),
    {
        proof {
            assert(3 * (self.width as int) * (self.height as int) <= 0x3000_0000) by (nonlinear_arith)
                requires self.width <= 16384 && self.height <= 16384,
            ;
        }
        let mut img: Frame = frame_new(self.width, self.height);
        frame_fill(&mut img, self.background);
        proof {
            lemma_fill_solid(
                crate::frame::black_grid(self.width as nat, self.height as nat),
                self.width as nat,
                self.height as nat,
                self.background,
            );
        }
        let mut i: usize = 0;
        while i < self.animations.len()
            invariant
                self.wf(),
                i <= self.animations@.len(),
                frame_wf(img),
                img_dims(img) == (self.width as nat, self.height as nat),
                img_pixels(img) == paint_upto(*self, k as int, i as int),
            decreases self.animations@.len() - i,
        {
            let inst: &Instance = &self.animations[i];
            if inst.start_frame <= k && k <= inst.end_frame && inst.start_frame < inst.end_frame {
                let diff: u32 = k - inst.start_frame;
                let den: u32 = inst.end_frame - inst.start_frame;
                let rp64: u64 = ((diff as u64) * 65536) / (den as u64);
                proof {
                    vstd::arithmetic::div_mod::lemma_div_pos_is_pos(
                        diff as int * 65536,
                        den as int,
                    );
                    vstd::arithmetic::div_mod::lemma_div_is_ordered(
                        diff as int * 65536,
                        den as int * 65536,
                        den as int,
                    );
                    vstd::arithmetic::div_mod::lemma_div_multiples_vanish(65536, den as int);
                    assert(den as int * 65536 == 65536 * (den as int));
                    assert(rp64 as int == raw_progress(
                        inst.start_frame as int,
                        inst.end_frame as int,
                        k as int,
                    ));
                }
                let rp: i64 = rp64 as i64;
                let eased: i64 = ease(rp);
                let artist = inst.animation.play(eased);
                artist.draw(inst.placement, &mut img);
                proof {
                    assert(img_pixels(img) == paint_upto(*self, k as int, i as int + 1));
                }
            } else {
                proof {
                    assert(!instance_active(
                        inst.start_frame as int,
                        inst.end_frame as int,
                        k as int,
                    ));
                    assert(img_pixels(img) == paint_upto(*self, k as int, i as int + 1));
                }
            }
            i = i + 1;
        }
        img
    }
}

/// A degenerate window, whose start and end frames coincide, is never
/// active: the sequencer skips it on every frame instead of dividing
/// by zero.
pub proof fn lemma_degenerate_window_skipped(start: int, end: int, k: int)
    requires
        start == end,
    ensures
        !instance_active(start, end, k),
{
}

/// A video whose every instance has a degenerate window renders pure
/// background on every frame.
pub proof fn lemma_degenerate_video_is_background(v: Video, k: int)
    requires
        forall|i: int|
            0 <= i < v.animations@.len() ==> (#[trigger] v.animations@[i]).start_frame
                == v.animations@[i].end_frame,
    ensures
        frame_spec(v, k) == solid_grid(v.width as nat, v.height as nat, v.background),
{
    lemma_degenerate_prefix(v, k, v.animations@.len() as int);
}

/// Painting any prefix of a list of degenerate instances changes
/// nothing.
proof fn lemma_degenerate_prefix(v: Video, k: int, i: int)
    requires
        0 <= i <= v.animations@.len(),
        forall|j: int|
            0 <= j < v.animations@.len() ==> (#[trigger] v.animations@[j]).start_frame
                == v.animations@[j].end_frame,
    ensures
        paint_upto(v, k, i) == solid_grid(v.width as nat, v.height as nat, v.background),
    decreases i,
{
    if i > 0 {
        lemma_degenerate_prefix(v, k, i - 1);
    }
}

} // verus!
