//! The frame buffer: a `width x height` grid of RGB pixels.
//!
//! The buffer itself is `image::RgbImage`, held in a field the
//! verifier does not look into.  Its contents are modeled by the
//! uninterpreted functions [`img_dims`] and [`img_pixels`]; the
//! wrappers state what the image crate's source shows of `new`,
//! `put_pixel`, `width` and `height`.

use vstd::prelude::*;

use crate::color::Color;

verus! {

/// A frame buffer: an RGB image the verifier treats as opaque.  The
/// inner image is public so that unverified callers can encode or
/// inspect it; verified code touches it only through the wrappers
/// below.
#[verifier::external_body]
pub struct Frame {
    /// The underlying image.
    pub img: image::RgbImage,
}

/// The width and height, in pixels, of a frame buffer.
pub uninterp spec fn img_dims(img: Frame) -> (nat, nat);

/// The pixel grid of a frame buffer: each in-bounds `(column, row)`
/// pair maps to the RGB channels stored there.
pub uninterp spec fn img_pixels(img: Frame) -> Map<(int, int), (u8, u8, u8)>;

/// The in-bounds pixel positions of a `w x h` frame.
pub open spec fn in_rect(p: (int, int), w: nat, h: nat) -> bool {
    &&& 0 <= p.0 < w
    &&& 0 <= p.1 < h
}

/// The set of all in-bounds positions of a `w x h` frame.
pub open spec fn full_rect(w: nat, h: nat) -> Set<(int, int)> {
    Set::<(int, int)>::new(|p: (int, int)| in_rect(p, w, h))
}

/// An all-black `w x h` pixel grid.
pub open spec fn black_grid(w: nat, h: nat) -> Map<(int, int), (u8, u8, u8)> {
    Map::<(int, int), (u8, u8, u8)>::new(
        |p: (int, int)| in_rect(p, w, h),
        |p: (int, int)| (0u8, 0u8, 0u8),
    )
}

/// A frame is well formed when its pixel grid covers exactly its
/// in-bounds positions.
pub open spec fn frame_wf(img: Frame) -> bool {
    img_pixels(img).dom() == full_rect(img_dims(img).0, img_dims(img).1)
}

/// The pixel grid after stamping color `c` over the positions in `s`:
/// stamped positions carry `c`, every other in-bounds position keeps
/// its value from `base`.
pub open spec fn stamped(
    base: Map<(int, int), (u8, u8, u8)>,
    w: nat,
    h: nat,
    s: Set<(int, int)>,
    c: Color,
) -> Map<(int, int), (u8, u8, u8)> {
    Map::<(int, int), (u8, u8, u8)>::new(
        |p: (int, int)| in_rect(p, w, h),
        |p: (int, int)| if s.contains(p) {
            c.as_tuple()
        } else {
            base[p]
        },
    )
}

/// Relies on `image::ImageBuffer::new`: it builds a buffer of the given
/// dimensions with every sample zero, that is every pixel black.
#[verifier::external_body]
pub fn frame_new(width: u32, height: u32) -> (img: Frame)
    requires
        3 * (width as int) * (height as int) <= usize::MAX as int,
    ensures
        img_dims(img) == (width as nat, height as nat),
        img_pixels(img) == black_grid(width as nat, height as nat),
        frame_wf(img),
{
    Frame { img: image::RgbImage::new(width, height) }
}

/// Relies on `image::ImageBuffer::put_pixel`: it overwrites the pixel
/// at `(x, y)` and touches nothing else; it panics out of bounds, so
/// the bounds are required here.
#[verifier::external_body]
pub fn frame_put(img: &mut Frame, x: u32, y: u32, c: Color)
    requires
        (x as nat) < img_dims(*old(img)).0,
        (y as nat) < img_dims(*old(img)).1,
    ensures
        img_dims(*final(img)) == img_dims(*old(img)),
        img_pixels(*final(img)) == img_pixels(*old(img)).insert(
            (x as int, y as int),
            (c.r, c.g, c.b),
        ),
{
    img.img.put_pixel(x, y, image::Rgb([c.r, c.g, c.b]));
}

/// Relies on `image::ImageBuffer::width`: it returns the width the
/// buffer was constructed with.
#[verifier::external_body]
pub fn frame_width(img: &Frame) -> (w: u32)
    ensures
        w as nat == img_dims(*img).0,
{
    img.img.width()
}

/// Relies on `image::ImageBuffer::height`: it returns the height the
/// buffer was constructed with.
#[verifier::external_body]
pub fn frame_height(img: &Frame) -> (h: u32)
    ensures
        h as nat == img_dims(*img).1,
{
    img.img.height()
}

/// Stamping one more in-bounds position is one pixel write.
pub proof fn lemma_stamped_insert(
    base: Map<(int, int), (u8, u8, u8)>,
    w: nat,
    h: nat,
    s: Set<(int, int)>,
    c: Color,
    p: (int, int),
)
    requires
        in_rect(p, w, h),
    ensures
        stamped(base, w, h, s, c).insert(p, c.as_tuple()) == stamped(base, w, h, s.insert(p), c),
{
    let lhs = stamped(base, w, h, s, c).insert(p, c.as_tuple());
    let rhs = stamped(base, w, h, s.insert(p), c);
    assert(lhs =~= rhs);
}

/// Stamping nothing leaves a well-formed grid unchanged.
pub proof fn lemma_stamped_empty(
    base: Map<(int, int), (u8, u8, u8)>,
    w: nat,
    h: nat,
    c: Color,
)
    requires
        base.dom() == full_rect(w, h),
    ensures
        stamped(base, w, h, Set::empty(), c) == base,
{
    assert(stamped(base, w, h, Set::empty(), c) =~= base);
}

/// Fill the whole frame with one color.
pub fn frame_fill(img: &mut Frame, c: Color)
    requires
        frame_wf(*old(img)),
    ensures
        frame_wf(*final(img)),
        img_dims(*final(img)) == img_dims(*old(img)),
        img_pixels(*final(img)) == stamped(
            img_pixels(*old(img)),
            img_dims(*old(img)).0,
            img_dims(*old(img)).1,
            full_rect(img_dims(*old(img)).0, img_dims(*old(img)).1),
            c,
        ),
{
    let w: u32 = frame_width(img);
    let h: u32 = frame_height(img);
    let ghost base = img_pixels(*img);
    let mut y: u32 = 0;
    while y < h
        invariant
            w as nat == img_dims(*img).0,
            h as nat == img_dims(*img).1,
            y <= h,
            frame_wf(*old(img)),
            img_dims(*img) == img_dims(*old(img)),
            base == img_pixels(*old(img)),
            img_pixels(*img) == stamped(base, w as nat, h as nat, fill_prefix(w as nat, h as nat, y as int, 0), c),
        decreases h - y,
    {
        let mut x: u32 = 0;
        while x < w
            invariant
                w as nat == img_dims(*img).0,
                h as nat == img_dims(*img).1,
                y < h,
                x <= w,
                frame_wf(*old(img)),
                img_dims(*img) == img_dims(*old(img)),
                base == img_pixels(*old(img)),
                img_pixels(*img) == stamped(base, w as nat, h as nat, fill_prefix(w as nat, h as nat, y as int, x as int), c),
            decreases w - x,
        {
            let ghost s_before = fill_prefix(w as nat, h as nat, y as int, x as int);
            frame_put(img, x, y, c);
            proof {
                lemma_stamped_insert(base, w as nat, h as nat, s_before, c, (x as int, y as int));
                assert(s_before.insert((x as int, y as int))
                    =~= fill_prefix(w as nat, h as nat, y as int, x as int + 1));
            }
            x = x + 1;
        }
        proof {
            assert(fill_prefix(w as nat, h as nat, y as int, w as int)
                =~= fill_prefix(w as nat, h as nat, y as int + 1, 0));
        }
        y = y + 1;
    }
    proof {
        assert(fill_prefix(w as nat, h as nat, h as int, 0)
            =~= full_rect(w as nat, h as nat));
        assert(frame_wf(*img)) by {
            assert(img_pixels(*img).dom() =~= full_rect(img_dims(*img).0, img_dims(*img).1));
        }
    }
}

/// The positions filled after finishing `y` full rows and `x` pixels of
/// the next row.
pub open spec fn fill_prefix(w: nat, h: nat, y: int, x: int) -> Set<(int, int)> {
    Set::<(int, int)>::new(
        |p: (int, int)| in_rect(p, w, h) && (p.1 < y || (p.1 == y && p.0 < x)),
    )
}


/// Stamping two sets in turn with one color equals stamping their
/// union.
pub proof fn lemma_stamped_union(
    base: Map<(int, int), (u8, u8, u8)>,
    w: nat,
    h: nat,
    s1: Set<(int, int)>,
    s2: Set<(int, int)>,
    c: Color,
)
    ensures
        stamped(stamped(base, w, h, s1, c), w, h, s2, c) == stamped(base, w, h, s1.union(s2), c),
{
    assert(stamped(stamped(base, w, h, s1, c), w, h, s2, c) =~= stamped(
        base,
        w,
        h,
        s1.union(s2),
        c,
    ));
}

/// A `w x h` grid holding one color everywhere.
pub open spec fn solid_grid(w: nat, h: nat, c: Color) -> Map<(int, int), (u8, u8, u8)> {
    Map::<(int, int), (u8, u8, u8)>::new(
        |p: (int, int)| in_rect(p, w, h),
        |p: (int, int)| c.as_tuple(),
    )
}

/// Filling the whole frame yields the solid grid.
pub proof fn lemma_fill_solid(
    base: Map<(int, int), (u8, u8, u8)>,
    w: nat,
    h: nat,
    c: Color,
)
    ensures
        stamped(base, w, h, full_rect(w, h), c) == solid_grid(w, h, c),
{
    assert(stamped(base, w, h, full_rect(w, h), c) =~= solid_grid(w, h, c));
}

} // verus!
