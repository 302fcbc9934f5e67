//! A 2-dimensional point or displacement on an image.
//!
//! The origin sits in the center of the image and the unit is one
//! pixel, held in fixed-point form (sixteen fractional bits).

use vstd::prelude::*;

use crate::fixed::FX_HALF;
use crate::fixed::FX_ONE;
use crate::fixed::fx_mul_spec;

verus! {

/// Magnitude bound on the coordinates of a well-formed vector:
/// 2^27 fixed-point units, that is 2048 pixels from the origin.
pub const VEC_MAX: i64 = 0x800_0000;

/// Magnitude bound on coordinates accepted by [`Vector::to_pixels`]:
/// generous enough for every curve point this library computes.
pub const COORD_MAX: i64 = 0x4000_0000_0000;

/// A 2-dimensional vector in fixed-point pixel units, origin at the
/// image center.
#[derive(Clone, Copy, PartialEq, Eq, Structural, Debug)]
pub struct Vector {
    pub x: i64,
    pub y: i64,
}

/// Clamp `v` into the closed interval `[lo, hi]`.
pub open spec fn clamp(v: int, lo: int, hi: int) -> int {
    if v < lo {
        lo
    } else if v > hi {
        hi
    } else {
        v
    }
}

/// The column a center-origin abscissa lands on in an image `w` pixels
/// wide: `round(w/2 + x)`, clamped into `[0, w-1]`.
pub open spec fn px_spec(x: int, w: int) -> int {
    clamp((w * FX_HALF + x + FX_HALF) / (FX_ONE as int), 0, w - 1)
}

/// The row a center-origin ordinate lands on in an image `h` pixels
/// tall: `round(h/2 - y)`, clamped into `[0, h-1]`; rows grow downward.
pub open spec fn py_spec(y: int, h: int) -> int {
    clamp((h * FX_HALF - y + FX_HALF) / (FX_ONE as int), 0, h - 1)
}

impl Vector {
    /// Both coordinates stay within the well-formed magnitude bound.
    pub open spec fn wf(self) -> bool {
        &&& -VEC_MAX <= self.x <= VEC_MAX
        &&& -VEC_MAX <= self.y <= VEC_MAX
    }

    /// Construct a vector from its coordinates.
    pub fn new(x: i64, y: i64) -> (v: Vector)
        ensures
            v == (Vector { x, y }),
    {
        Vector { x, y }
    }

    /// The zero vector.
    pub fn zero() -> (v: Vector)
        ensures
            v == (Vector { x: 0i64, y: 0i64 }),
    {
        Vector { x: 0, y: 0 }
    }

    /// Componentwise sum.
    pub fn add(self, other: Vector) -> (v: Vector)
        requires
            i64::MIN <= self.x + other.x <= i64::MAX,
            i64::MIN <= self.y + other.y <= i64::MAX,
        ensures
            v.x == self.x + other.x,
            v.y == self.y + other.y,
    {
        Vector { x: self.x + other.x, y: self.y + other.y }
    }

    /// Componentwise difference.
    pub fn sub(self, other: Vector) -> (v: Vector)
        requires
            i64::MIN <= self.x - other.x <= i64::MAX,
            i64::MIN <= self.y - other.y <= i64::MAX,
        ensures
            v.x == self.x - other.x,
            v.y == self.y - other.y,
    {
        Vector { x: self.x - other.x, y: self.y - other.y }
    }

    /// Scale by a fixed-point factor, each coordinate rounded toward
    /// negative infinity.
    pub fn mul(self, factor: i64) -> (v: Vector)
        requires
            -crate::fixed::FX_ARG_MAX <= self.x * factor <= crate::fixed::FX_ARG_MAX,
            -crate::fixed::FX_ARG_MAX <= self.y * factor <= crate::fixed::FX_ARG_MAX,
        ensures
            v.x == fx_mul_spec(self.x as int, factor as int),
            v.y == fx_mul_spec(self.y as int, factor as int),
    {
        Vector {
            x: crate::fixed::fx_mul(self.x, factor),
            y: crate::fixed::fx_mul(self.y, factor),
        }
    }

    /// Convert to integer pixel coordinates in an image of the given
    /// dimensions, rounding to the nearest pixel center and clamping
    /// into bounds.
    pub fn to_pixels(self, width: u32, height: u32) -> (r: (u32, u32))
        requires
            width >= 1,
            height >= 1,
            -COORD_MAX <= self.x <= COORD_MAX,
            -COORD_MAX <= self.y <= COORD_MAX,
        ensures
            r.0 == px_spec(self.x as int, width as int),
            r.1 == py_spec(self.y as int, height as int),
    {
        let px: u32 = axis_to_pixel(self.x, width);
        proof {
            assert(py_spec(self.y as int, height as int)
                == px_spec(-self.y as int, height as int));
        }
        let py: u32 = axis_to_pixel(-self.y, height);
        (px, py)
    }
}

/// Round-and-clamp one axis: the column for abscissa `v` on a `w`-pixel
/// axis.
fn axis_to_pixel(v: i64, w: u32) -> (r: u32)
    requires
        w >= 1,
        -COORD_MAX <= v <= COORD_MAX,
    ensures
        r == px_spec(v as int, w as int),
{
    let centered: i64 = (w as i64) * FX_HALF + v + FX_HALF;
    if centered < 0 {
        proof {
            vstd::arithmetic::div_mod::lemma_div_is_ordered(centered as int, -1, 65536);
        }
        0
    } else {
        let q: u64 = (centered as u64) / (FX_ONE as u64);
        if q >= w as u64 {
            w - 1
        } else {
            q as u32
        }
    }
}

} // verus!
