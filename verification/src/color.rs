//! RGB colors and per-channel linear blending.

use vstd::prelude::*;

use crate::fixed::FX_HALF;
use crate::fixed::FX_ONE;
use crate::fixed::fx_lerp_spec;

verus! {

/// An RGB color with eight bits per channel.
#[derive(Clone, Copy, PartialEq, Eq, Structural, Debug)]
pub struct Color {
    pub r: u8,
    pub g: u8,
    pub b: u8,
}

impl Color {
    /// The channels as a plain triple.
    pub open spec fn as_tuple(self) -> (u8, u8, u8) {
        (self.r, self.g, self.b)
    }

    /// Construct a color from its channels.
    pub fn new(r: u8, g: u8, b: u8) -> (c: Color)
        ensures
            c == (Color { r, g, b }),
    {
        Color { r, g, b }
    }
}

/// The per-channel blend of two colors at the given progress, each
/// channel rounded to the nearest integer value, half up.
pub open spec fn color_lerp_spec(a: Color, b: Color, p: int) -> Color {
    Color {
        r: fx_lerp_spec(a.r as int, b.r as int, p) as u8,
        g: fx_lerp_spec(a.g as int, b.g as int, p) as u8,
        b: fx_lerp_spec(a.b as int, b.b as int, p) as u8,
    }
}

/// A blend of channel values stays a channel value.
pub proof fn lemma_channel_lerp_range(a: int, b: int, p: int)
    requires
        0 <= a <= 255,
        0 <= b <= 255,
        0 <= p <= FX_ONE,
    ensures
        0 <= fx_lerp_spec(a, b, p) <= 255,
{
    assert(0 <= a * (FX_ONE - p) + b * p + FX_HALF < 256 * 65536) by (nonlinear_arith)
        requires 0 <= a <= 255 && 0 <= b <= 255 && 0 <= p <= 65536,
    ;
    assert(fx_lerp_spec(a, b, p) * 65536 <= a * (FX_ONE - p) + b * p + FX_HALF) by {
        vstd::arithmetic::div_mod::lemma_fundamental_div_mod(a * (FX_ONE - p) + b * p + FX_HALF, 65536);
    }
    assert(0 <= fx_lerp_spec(a, b, p) < 256) by {
        vstd::arithmetic::div_mod::lemma_div_pos_is_pos(a * (FX_ONE - p) + b * p + FX_HALF, 65536);
        if fx_lerp_spec(a, b, p) >= 256 {
            assert(fx_lerp_spec(a, b, p) * 65536 >= 256 * 65536) by (nonlinear_arith)
                requires fx_lerp_spec(a, b, p) >= 256,
            ;
        }
    }
}

/// Blend one channel of two colors.
fn channel_lerp(a: u8, b: u8, p: i64) -> (r: u8)
    requires
        0 <= p <= FX_ONE,
    ensures
        r == fx_lerp_spec(a as int, b as int, p as int),
{
    proof {
        lemma_channel_lerp_range(a as int, b as int, p as int);
    }
    let n: i64 = (a as i64) * (FX_ONE - p) + (b as i64) * p;
    let v: i64 = crate::fixed::div_floor(n + FX_HALF, FX_ONE);
    v as u8
}

/// Blend two colors channel by channel.
pub fn color_lerp(a: Color, b: Color, p: i64) -> (c: Color)
    requires
        0 <= p <= FX_ONE,
    ensures
        c == color_lerp_spec(a, b, p as int),
{
    Color {
        r: channel_lerp(a.r, b.r, p),
        g: channel_lerp(a.g, b.g, p),
        b: channel_lerp(a.b, b.b, p),
    }
}

/// Blending at progress zero returns the first color; at progress one,
/// the second.
pub proof fn lemma_color_lerp_ends(a: Color, b: Color)
    ensures
        color_lerp_spec(a, b, 0) == a,
        color_lerp_spec(a, b, FX_ONE as int) == b,
{
    crate::fixed::lemma_lerp_at_zero(a.r as int, b.r as int);
    crate::fixed::lemma_lerp_at_zero(a.g as int, b.g as int);
    crate::fixed::lemma_lerp_at_zero(a.b as int, b.b as int);
    crate::fixed::lemma_lerp_at_one(a.r as int, b.r as int);
    crate::fixed::lemma_lerp_at_one(a.g as int, b.g as int);
    crate::fixed::lemma_lerp_at_one(a.b as int, b.b as int);
}

} // verus!
