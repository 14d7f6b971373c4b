//! The shared canvas: an `image::RgbaImage` pixel buffer sized once by the
//! driver and mutated in place by every line render.
//!
//! The buffer type and its three primitive operations (create, read a pixel,
//! write a pixel) come from the `image` crate and are trusted; their contents
//! are named by the uninterpreted functions [`img_pixels`] and [`img_size`].
//! Everything built on top of them is verified.

use crate::pixel::Rgba8;
use vstd::arithmetic::div_mod::{
    lemma_fundamental_div_mod, lemma_mod_bound, lemma_multiply_divide_lt,
};
use vstd::prelude::*;

verus! {

/// Holds the canvas's `image::RgbaImage`. The buffer is opaque to the
/// verifier and is reached only through the trusted operations below.
#[verifier::external_body]
pub struct PixBuf {
    img: image::RgbaImage,
}

/// The pixels the held `image::RgbaImage` holds, as a map from (x, y) to the
/// four channel bytes of the pixel there.
pub uninterp spec fn img_pixels(buf: PixBuf) -> Map<(int, int), Rgba8>;

/// The (width, height) the held `image::RgbaImage` was created with.
pub uninterp spec fn img_size(buf: PixBuf) -> (nat, nat);

/// Relies on `image::ImageBuffer::from_pixel`: a width x height buffer with
/// every pixel set to the given fill; it panics only when the buffer would
/// exceed a vector's maximum size.
#[verifier::external_body]
fn image_new_raw(width: u32, height: u32, fill: Rgba8) -> (r: PixBuf)
    requires
        4 * (width as int) * (height as int) < 0x8000_0000_0000_0000,
    ensures
        img_size(r) == (width as nat, height as nat),
        img_pixels(r) == const_pixels(width as int, height as int, fill),
{
    PixBuf {
        img: image::ImageBuffer::from_pixel(
            width,
            height,
            image::Rgba([fill.0, fill.1, fill.2, fill.3]),
        ),
    }
}

/// Relies on `image::ImageBuffer::get_pixel`: the pixel at (x, y); it panics
/// only out of the buffer's bounds.
#[verifier::external_body]
fn image_get_raw(buf: &PixBuf, x: u32, y: u32) -> (r: Rgba8)
    requires
        (x as nat) < img_size(*buf).0,
        (y as nat) < img_size(*buf).1,
        img_pixels(*buf).dom().contains((x as int, y as int)),
    ensures
        r == img_pixels(*buf)[(x as int, y as int)],
{
    let p = buf.img.get_pixel(x, y);
    (p.0[0], p.0[1], p.0[2], p.0[3])
}

/// Relies on `image::ImageBuffer::put_pixel`: replaces the pixel at (x, y)
/// and touches no other; it panics only out of the buffer's bounds.
#[verifier::external_body]
fn image_put_raw(buf: &mut PixBuf, x: u32, y: u32, px: Rgba8)
    requires
        (x as nat) < img_size(*old(buf)).0,
        (y as nat) < img_size(*old(buf)).1,
    ensures
        img_size(*final(buf)) == img_size(*old(buf)),
        img_pixels(*final(buf)) == img_pixels(*old(buf)).insert((x as int, y as int), px),
{
    buf.img.put_pixel(x, y, image::Rgba([px.0, px.1, px.2, px.3]));
}

/// Whether `bytes` lays out the pixel map of a `w` x `h` buffer row-major from
/// the top-left, four bytes (r, g, b, a) per pixel.
pub open spec fn bytes_match(bytes: Seq<u8>, pix: Map<(int, int), Rgba8>, w: int, h: int) -> bool {
    &&& bytes.len() == 4 * w * h
    &&& forall|x: int, y: int|
        0 <= x < w && 0 <= y < h ==> {
            let i = 4 * (y * w + x);
            #[trigger] pix[(x, y)] == (bytes[i], bytes[i + 1], bytes[i + 2], bytes[i + 3])
        }
}

/// Relies on `image::ImageBuffer::into_raw`: the underlying container, whose
/// bytes hold the pixels row-major from the top-left, four bytes (r, g, b, a)
/// per pixel.
#[verifier::external_body]
fn image_into_bytes_raw(buf: PixBuf) -> (r: Vec<u8>)
    ensures
        bytes_match(r@, img_pixels(buf), img_size(buf).0 as int, img_size(buf).1 as int),
{
    buf.img.into_raw()
}

/// Law: the row-major byte layout pins the buffer completely — two byte
/// buffers that lay out the same pixel map are equal. Together with the
/// renderer's determinism, rendering one line into two fresh canvases with
/// equal pixels yields byte-identical buffers.
pub proof fn lemma_bytes_unique(
    b1: Seq<u8>,
    b2: Seq<u8>,
    pix: Map<(int, int), Rgba8>,
    w: int,
    h: int,
)
    requires
        w >= 0,
        h >= 0,
        bytes_match(b1, pix, w, h),
        bytes_match(b2, pix, w, h),
    ensures
        b1 == b2,
{
    assert forall|i: int| 0 <= i < b1.len() implies b1[i] == b2[i] by {
        assert(w > 0 && h > 0 && 4 * w * h == 4 * (w * h)) by (nonlinear_arith)
            requires
                w >= 0,
                h >= 0,
                4 * w * h > 0,
        ;
        let q = i / 4;
        let c = i % 4;
        lemma_fundamental_div_mod(i, 4);
        lemma_mod_bound(i, 4);
        lemma_multiply_divide_lt(i, 4, w * h);
        let y = q / w;
        let x = q % w;
        lemma_fundamental_div_mod(q, w);
        lemma_mod_bound(q, w);
        lemma_multiply_divide_lt(q, w, h);
        assert(y * w + x == q) by (nonlinear_arith)
            requires
                q == w * y + x,
        ;
        assert(pix[(x, y)] == (b1[4 * q], b1[4 * q + 1], b1[4 * q + 2], b1[4 * q + 3]));
        assert(pix[(x, y)] == (b2[4 * q], b2[4 * q + 1], b2[4 * q + 2], b2[4 * q + 3]));
        assert(i == 4 * q + c && 0 <= c < 4);
    }
    assert(b1 =~= b2);
}

/// A width x height pixel map anchored at the origin with every pixel `fill`.
pub open spec fn const_pixels(w: int, h: int, fill: Rgba8) -> Map<(int, int), Rgba8> {
    Map::<(int, int), Rgba8>::new(|p: (int, int)| 0 <= p.0 < w && 0 <= p.1 < h, |p: (int, int)| fill)
}

/// The set of coordinates of a width x height pixel rectangle anchored at the
/// origin.
pub open spec fn rect_dom(w: int, h: int) -> Set<(int, int)> {
    Set::new(|p: (int, int)| 0 <= p.0 < w && 0 <= p.1 < h)
}

/// The shared mutable pixel buffer all lines render into. Its dimensions are
/// fixed at creation; every pixel write stays inside them.
pub struct Canvas {
    img: PixBuf,
    width: u32,
    height: u32,
}

impl Canvas {
    /// Width in pixels.
    pub closed spec fn w(self) -> int {
        self.width as int
    }

    /// Height in pixels.
    pub closed spec fn h(self) -> int {
        self.height as int
    }

    /// The pixels, keyed by (x, y).
    pub closed spec fn pix(self) -> Map<(int, int), Rgba8> {
        img_pixels(self.img)
    }

    /// The buffer's recorded size matches the dimensions and its pixel map
    /// covers exactly the rectangle they span.
    pub closed spec fn wf(self) -> bool {
        &&& img_size(self.img) == (self.width as nat, self.height as nat)
        &&& img_pixels(self.img).dom() == rect_dom(self.width as int, self.height as int)
    }

    /// A well-formed canvas's pixels cover exactly its w x h rectangle.
    pub proof fn lemma_wf_dom(self)
        requires
            self.wf(),
        ensures
            self.pix().dom() == rect_dom(self.w(), self.h()),
    {
    }

    /// Create a canvas of the given dimensions with every pixel set to `fill`.
    pub fn new(width: u32, height: u32, fill: Rgba8) -> (c: Canvas)
        requires
            4 * (width as int) * (height as int) < 0x8000_0000_0000_0000,
        ensures
            c.wf(),
            c.w() == width as int,
            c.h() == height as int,
            c.pix() == const_pixels(width as int, height as int, fill),
    {
        let img = image_new_raw(width, height, fill);
        proof {
            assert(img_pixels(img).dom() =~= rect_dom(width as int, height as int));
        }
        Canvas { img, width, height }
    }

    /// Width in pixels.
    pub fn width(&self) -> (r: u32)
        ensures
            r as int == self.w(),
    {
        self.width
    }

    /// Height in pixels.
    pub fn height(&self) -> (r: u32)
        ensures
            r as int == self.h(),
    {
        self.height
    }

    /// Read the pixel at (x, y).
    pub fn get(&self, x: u32, y: u32) -> (r: Rgba8)
        requires
            self.wf(),
            (x as int) < self.w(),
            (y as int) < self.h(),
        ensures
            r == self.pix()[(x as int, y as int)],
    {
        image_get_raw(&self.img, x, y)
    }

    /// Replace the pixel at (x, y).
    pub fn put(&mut self, x: u32, y: u32, px: Rgba8)
        requires
            old(self).wf(),
            (x as int) < old(self).w(),
            (y as int) < old(self).h(),
        ensures
            final(self).wf(),
            final(self).w() == old(self).w(),
            final(self).h() == old(self).h(),
            final(self).pix() == old(self).pix().insert((x as int, y as int), px),
    {
        proof {
            assert(rect_dom(self.width as int, self.height as int).contains((x as int, y as int)));
        }
        image_put_raw(&mut self.img, x, y, px);
        proof {
            assert(img_pixels(self.img).dom() =~= rect_dom(self.width as int, self.height as int));
        }
    }

    /// Hand the finished pixels back to the driver, row-major RGBA bytes,
    /// for encoding or saving.
    pub fn into_bytes(self) -> (r: Vec<u8>)
        requires
            self.wf(),
        ensures
            bytes_match(r@, self.pix(), self.w(), self.h()),
    {
        image_into_bytes_raw(self.img)
    }
}

} // verus!
