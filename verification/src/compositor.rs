//! The compositor: monochrome coverage masks are drawn onto the canvas
//! immediately, colored glyph bitmaps are queued and overlaid at the end of
//! the line, in insertion order. So within one line every colored glyph draws
//! strictly after every monochrome glyph of that line.

use crate::canvas::{rect_dom, Canvas};
use crate::pixel::{blend, blend_px, lemma_src_over_opaque, src_over, src_over_px, Rgba8};
use vstd::prelude::*;

verus! {

/// The widest coordinate magnitude the compositor accepts for a draw origin.
/// Far beyond any canvas, but small enough that origin plus mask size cannot
/// overflow a signed 64-bit coordinate.
pub const MAX_COORD: i64 = 0x4000_0000_0000_0000;

/// A vector outline rasterized to per-pixel opacity: `cov` holds one coverage
/// byte per pixel, row-major from the top-left, 255 meaning fully inked.
pub struct GlyphMask {
    /// Width of the mask in pixels.
    pub width: u32,
    /// Height of the mask in pixels.
    pub height: u32,
    /// Row-major coverage bytes, `width * height` of them.
    pub cov: Vec<u8>,
}

/// An embedded full-color glyph bitmap, row-major from the top-left.
pub struct GlyphBitmap {
    /// Width of the bitmap in pixels.
    pub width: u32,
    /// Height of the bitmap in pixels.
    pub height: u32,
    /// Row-major pixels, `width * height` of them.
    pub px: Vec<Rgba8>,
}

/// A colored glyph bitmap queued for deferred overlay, with the canvas
/// position of its top-left corner.
pub struct ColoredGlyphImage {
    /// Canvas x of the bitmap's top-left corner.
    pub x: i64,
    /// Canvas y of the bitmap's top-left corner.
    pub y: i64,
    /// The artwork itself.
    pub bitmap: GlyphBitmap,
}

proof fn lemma_row_major_index(w: int, h: int, mx: int, my: int)
    ensures
        0 <= mx < w && 0 <= my < h ==> 0 <= my * w + mx < w * h,
{
    assert(0 <= mx < w && 0 <= my < h ==> 0 <= my * w + mx < w * h) by (nonlinear_arith);
}

impl GlyphMask {
    /// The coverage buffer holds exactly one byte per pixel.
    pub open spec fn wf(self) -> bool {
        self.cov.len() == (self.width as int) * (self.height as int)
    }

    /// Coverage at mask coordinates (mx, my).
    pub open spec fn at(self, mx: int, my: int) -> u8 {
        self.cov[my * (self.width as int) + mx]
    }

    /// Build a mask, checking that the coverage buffer matches the dimensions.
    pub fn new(width: u32, height: u32, cov: Vec<u8>) -> (r: Option<GlyphMask>)
        ensures
            match r {
                Some(m) => m.wf() && m.width == width && m.height == height && m.cov == cov,
                None => cov.len() != (width as int) * (height as int),
            },
    {
        match (width as usize).checked_mul(height as usize) {
            Some(n) if n == cov.len() => Some(GlyphMask { width, height, cov }),
            _ => None,
        }
    }

    /// Read the coverage at (mx, my).
    pub fn cov_at(&self, mx: u32, my: u32) -> (r: u8)
        requires
            self.wf(),
            mx < self.width,
            my < self.height,
        ensures
            r == self.at(mx as int, my as int),
    {
        proof {
            lemma_row_major_index(self.width as int, self.height as int, mx as int, my as int);
        }
        let idx: usize = (my as usize) * (self.width as usize) + (mx as usize);
        self.cov[idx]
    }
}

impl GlyphBitmap {
    /// The pixel buffer holds exactly one pixel per position.
    pub open spec fn wf(self) -> bool {
        self.px.len() == (self.width as int) * (self.height as int)
    }

    /// The pixel at bitmap coordinates (bx, by).
    pub open spec fn at(self, bx: int, by: int) -> Rgba8 {
        self.px[by * (self.width as int) + bx]
    }

    /// Build a bitmap, checking that the pixel buffer matches the dimensions.
    pub fn new(width: u32, height: u32, px: Vec<Rgba8>) -> (r: Option<GlyphBitmap>)
        ensures
            match r {
                Some(b) => b.wf() && b.width == width && b.height == height && b.px == px,
                None => px.len() != (width as int) * (height as int),
            },
    {
        match (width as usize).checked_mul(height as usize) {
            Some(n) if n == px.len() => Some(GlyphBitmap { width, height, px }),
            _ => None,
        }
    }

    /// Read the pixel at (bx, by).
    pub fn px_at(&self, bx: u32, by: u32) -> (r: Rgba8)
        requires
            self.wf(),
            bx < self.width,
            by < self.height,
        ensures
            r == self.at(bx as int, by as int),
    {
        proof {
            lemma_row_major_index(self.width as int, self.height as int, bx as int, by as int);
        }
        let idx: usize = (by as usize) * (self.width as usize) + (bx as usize);
        self.px[idx]
    }
}

impl ColoredGlyphImage {
    /// Dimensions are consistent and the origin is within the coordinate range
    /// the compositor accepts.
    pub open spec fn wf(self) -> bool {
        &&& self.bitmap.wf()
        &&& -MAX_COORD <= self.x <= MAX_COORD
        &&& -MAX_COORD <= self.y <= MAX_COORD
    }

    /// Whether the overlaid bitmap covers canvas position p.
    pub open spec fn covers(self, p: (int, int)) -> bool {
        &&& self.x <= p.0 < self.x + (self.bitmap.width as int)
        &&& self.y <= p.1 < self.y + (self.bitmap.height as int)
    }

    /// The bitmap pixel that lands on canvas position p.
    pub open spec fn px_over(self, p: (int, int)) -> Rgba8 {
        self.bitmap.at(p.0 - self.x, p.1 - self.y)
    }
}

/// Whether the mask placed at (ox, oy) covers canvas position p.
pub open spec fn mask_covers(mask: GlyphMask, ox: int, oy: int, p: (int, int)) -> bool {
    &&& ox <= p.0 < ox + (mask.width as int)
    &&& oy <= p.1 < oy + (mask.height as int)
}

/// The pixel at p after blending `mask` in color `fg`, top-left at (ox, oy),
/// over the pixels `cpix`: covered positions are blended with the mask's
/// coverage weight, all others are untouched.
pub open spec fn drawn_px(
    cpix: Map<(int, int), Rgba8>,
    mask: GlyphMask,
    ox: int,
    oy: int,
    fg: Rgba8,
    p: (int, int),
) -> Rgba8 {
    if mask_covers(mask, ox, oy, p) {
        blend_px(fg, cpix[p], mask.at(p.0 - ox, p.1 - oy))
    } else {
        cpix[p]
    }
}

/// The whole canvas after drawing a monochrome mask: pointwise [`drawn_px`],
/// over the same domain, so pixels outside the canvas are dropped.
pub open spec fn draw_mask_spec(
    cpix: Map<(int, int), Rgba8>,
    mask: GlyphMask,
    ox: int,
    oy: int,
    fg: Rgba8,
) -> Map<(int, int), Rgba8> {
    Map::new(
        |p: (int, int)| cpix.dom().contains(p),
        |p: (int, int)| drawn_px(cpix, mask, ox, oy, fg, p),
    )
}

/// The pixel at p after overlaying one colored glyph image by source-over.
pub open spec fn overlaid_px(
    cpix: Map<(int, int), Rgba8>,
    img: ColoredGlyphImage,
    p: (int, int),
) -> Rgba8 {
    if img.covers(p) {
        src_over_px(img.px_over(p), cpix[p])
    } else {
        cpix[p]
    }
}

/// The whole canvas after overlaying one colored glyph image: pointwise
/// [`overlaid_px`] over the same domain.
pub open spec fn overlay_spec(
    cpix: Map<(int, int), Rgba8>,
    img: ColoredGlyphImage,
) -> Map<(int, int), Rgba8> {
    Map::new(
        |p: (int, int)| cpix.dom().contains(p),
        |p: (int, int)| overlaid_px(cpix, img, p),
    )
}

/// The canvas after overlaying the first n queued images, in insertion order.
pub open spec fn overlay_all(
    cpix: Map<(int, int), Rgba8>,
    q: Seq<ColoredGlyphImage>,
    n: int,
) -> Map<(int, int), Rgba8>
    decreases n,
{
    if n <= 0 {
        cpix
    } else {
        overlay_spec(overlay_all(cpix, q, n - 1), q[n - 1])
    }
}

/// Overlaying keeps the canvas domain: nothing is drawn outside it.
pub proof fn lemma_overlay_all_dom(cpix: Map<(int, int), Rgba8>, q: Seq<ColoredGlyphImage>, n: int)
    ensures
        overlay_all(cpix, q, n).dom() == cpix.dom(),
    decreases n,
{
    if n > 0 {
        lemma_overlay_all_dom(cpix, q, n - 1);
        assert(overlay_all(cpix, q, n).dom() =~= cpix.dom());
    }
}

/// Law (compositing order): after the deferred overlays run, any canvas
/// position that the last queued image covers with a fully opaque pixel shows
/// exactly that pixel — a colored glyph is never occluded by the monochrome
/// ink drawn earlier in the same line.
pub proof fn lemma_last_colored_on_top(
    cpix: Map<(int, int), Rgba8>,
    q: Seq<ColoredGlyphImage>,
    p: (int, int),
)
    requires
        q.len() > 0,
        cpix.dom().contains(p),
        q.last().covers(p),
        q.last().px_over(p).3 == 255,
    ensures
        overlay_all(cpix, q, q.len() as int)[p] == q.last().px_over(p),
{
    let prev = overlay_all(cpix, q, q.len() - 1);
    lemma_overlay_all_dom(cpix, q, q.len() - 1);
    lemma_src_over_opaque(q.last().px_over(p), prev[p]);
}

/// Law (out-of-bounds safety): a monochrome draw changes nothing outside the
/// mask's rectangle, and positions of the mask that fall outside the canvas
/// are silently dropped — the domain never grows.
pub proof fn lemma_draw_outside_unchanged(
    cpix: Map<(int, int), Rgba8>,
    mask: GlyphMask,
    ox: int,
    oy: int,
    fg: Rgba8,
    p: (int, int),
)
    requires
        cpix.dom().contains(p),
        !mask_covers(mask, ox, oy, p),
    ensures
        draw_mask_spec(cpix, mask, ox, oy, fg).dom() == cpix.dom(),
        draw_mask_spec(cpix, mask, ox, oy, fg)[p] == cpix[p],
{
    assert(draw_mask_spec(cpix, mask, ox, oy, fg).dom() =~= cpix.dom());
}

/// Drawing state for one line: colored artwork is deferred here while
/// monochrome ink goes straight to the canvas.
pub struct Compositor {
    queue: Vec<ColoredGlyphImage>,
}

/// Partially drawn mask, used while walking it row-major: positions whose mask
/// row is before `rows`, or on row `rows` before column `cols`, are blended;
/// the rest still show the old pixels.
pub open spec fn partial_drawn_px(
    cpix: Map<(int, int), Rgba8>,
    mask: GlyphMask,
    ox: int,
    oy: int,
    fg: Rgba8,
    rows: int,
    cols: int,
    p: (int, int),
) -> Rgba8 {
    if mask_covers(mask, ox, oy, p) && (p.1 - oy < rows || (p.1 - oy == rows && p.0 - ox < cols)) {
        blend_px(fg, cpix[p], mask.at(p.0 - ox, p.1 - oy))
    } else {
        cpix[p]
    }
}

/// Partially overlaid bitmap, row-major, same shape as [`partial_drawn_px`].
pub open spec fn partial_overlaid_px(
    cpix: Map<(int, int), Rgba8>,
    img: ColoredGlyphImage,
    rows: int,
    cols: int,
    p: (int, int),
) -> Rgba8 {
    if img.covers(p) && (p.1 - img.y < rows || (p.1 - img.y == rows && p.0 - img.x < cols)) {
        src_over_px(img.px_over(p), cpix[p])
    } else {
        cpix[p]
    }
}

impl Compositor {
    /// The queued colored glyph images, in insertion order.
    pub closed spec fn queue_view(self) -> Seq<ColoredGlyphImage> {
        self.queue@
    }

    /// Every queued image is well-formed.
    pub open spec fn wf(self) -> bool {
        forall|i: int| 0 <= i < self.queue_view().len() ==> (#[trigger] self.queue_view()[i]).wf()
    }

    /// A compositor with an empty queue.
    pub fn new() -> (r: Compositor)
        ensures
            r.wf(),
            r.queue_view() == Seq::<ColoredGlyphImage>::empty(),
    {
        Compositor { queue: Vec::new() }
    }

    /// Start a line: clear the deferred color queue.
    pub fn begin_line(&mut self)
        ensures
            final(self).wf(),
            final(self).queue_view() == Seq::<ColoredGlyphImage>::empty(),
    {
        self.queue = Vec::new();
    }

    /// Append a colored glyph image to the deferred queue without drawing.
    pub fn queue_color(&mut self, img: ColoredGlyphImage)
        requires
            old(self).wf(),
            img.wf(),
        ensures
            final(self).wf(),
            final(self).queue_view() == old(self).queue_view().push(img),
    {
        self.queue.push(img);
    }

    /// Blend a monochrome coverage mask in the foreground color onto the
    /// canvas, its top-left corner at canvas position (ox, oy). Every covered
    /// in-bounds pixel is blended with its coverage weight; out-of-bounds
    /// pixels are silently dropped.
    pub fn draw_outline(&self, canvas: &mut Canvas, mask: &GlyphMask, ox: i64, oy: i64, fg: Rgba8)
        requires
            old(canvas).wf(),
            mask.wf(),
            -MAX_COORD <= ox <= MAX_COORD,
            -MAX_COORD <= oy <= MAX_COORD,
        ensures
            final(canvas).wf(),
            final(canvas).w() == old(canvas).w(),
            final(canvas).h() == old(canvas).h(),
            final(canvas).pix() == draw_mask_spec(old(canvas).pix(), *mask, ox as int, oy as int, fg),
    {
        let ghost opix = canvas.pix();
        let cw = canvas.width();
        let ch = canvas.height();
        proof {
            canvas.lemma_wf_dom();
        }
        let mut my: u32 = 0;
        while my < mask.height
            invariant
                canvas.wf(),
                canvas.w() == old(canvas).w(),
                canvas.h() == old(canvas).h(),
                cw as int == canvas.w(),
                ch as int == canvas.h(),
                mask.wf(),
                -MAX_COORD <= ox <= MAX_COORD,
                -MAX_COORD <= oy <= MAX_COORD,
                my <= mask.height,
                opix.dom() == rect_dom(cw as int, ch as int),
                canvas.pix().dom() == opix.dom(),
                forall|p: (int, int)| #[trigger] opix.dom().contains(p) ==>
                    canvas.pix()[p] == partial_drawn_px(opix, *mask, ox as int, oy as int, fg, my as int, 0, p),
            decreases mask.height - my,
        {
            let mut mx: u32 = 0;
            while mx < mask.width
                invariant
                    canvas.wf(),
                    canvas.w() == old(canvas).w(),
                    canvas.h() == old(canvas).h(),
                    cw as int == canvas.w(),
                    ch as int == canvas.h(),
                    mask.wf(),
                    -MAX_COORD <= ox <= MAX_COORD,
                    -MAX_COORD <= oy <= MAX_COORD,
                    my < mask.height,
                    mx <= mask.width,
                    opix.dom() == rect_dom(cw as int, ch as int),
                    canvas.pix().dom() == opix.dom(),
                    forall|p: (int, int)| #[trigger] opix.dom().contains(p) ==>
                        canvas.pix()[p] == partial_drawn_px(opix, *mask, ox as int, oy as int, fg, my as int, mx as int, p),
                decreases mask.width - mx,
            {
                let ghost k = (ox + mx as int, oy + my as int);
                let cx: i64 = ox + mx as i64;
                let cy: i64 = oy + my as i64;
                if 0 <= cx && cx < cw as i64 && 0 <= cy && cy < ch as i64 {
                    proof {
                        assert(opix.dom().contains(k));
                        assert(canvas.pix()[k] == partial_drawn_px(opix, *mask, ox as int, oy as int, fg, my as int, mx as int, k));
                        assert(canvas.pix()[k] == opix[k]);
                    }
                    let w = mask.cov_at(mx, my);
                    let old_px = canvas.get(cx as u32, cy as u32);
                    let npx = blend(fg, old_px, w);
                    canvas.put(cx as u32, cy as u32, npx);
                    proof {
                        assert(canvas.pix()[k] == blend_px(fg, opix[k], mask.at(mx as int, my as int)));
                    }
                }
                proof {
                    assert forall|p: (int, int)| #[trigger] opix.dom().contains(p) implies
                        canvas.pix()[p] == partial_drawn_px(opix, *mask, ox as int, oy as int, fg, my as int, mx as int + 1, p) by {
                        if p == k {
                            assert(mask_covers(*mask, ox as int, oy as int, p));
                            assert(mask.at(p.0 - ox as int, p.1 - oy as int) == mask.at(mx as int, my as int));
                        } else {
                            assert(canvas.pix()[p] == partial_drawn_px(opix, *mask, ox as int, oy as int, fg, my as int, mx as int, p));
                            assert(partial_drawn_px(opix, *mask, ox as int, oy as int, fg, my as int, mx as int + 1, p)
                                == partial_drawn_px(opix, *mask, ox as int, oy as int, fg, my as int, mx as int, p));
                        }
                    }
                }
                mx += 1;
            }
            my += 1;
        }
        proof {
            assert(canvas.pix() =~= draw_mask_spec(opix, *mask, ox as int, oy as int, fg));
        }
    }

    /// Overlay every queued image in insertion order by source-over, then
    /// clear the queue.
    pub fn end_line(&mut self, canvas: &mut Canvas)
        requires
            old(canvas).wf(),
            old(self).wf(),
        ensures
            final(self).wf(),
            final(self).queue_view() == Seq::<ColoredGlyphImage>::empty(),
            final(canvas).wf(),
            final(canvas).w() == old(canvas).w(),
            final(canvas).h() == old(canvas).h(),
            final(canvas).pix() == overlay_all(
                old(canvas).pix(),
                old(self).queue_view(),
                old(self).queue_view().len() as int,
            ),
    {
        let ghost opix = canvas.pix();
        let ghost q = self.queue@;
        let n = self.queue.len();
        let mut i: usize = 0;
        while i < n
            invariant
                canvas.wf(),
                canvas.w() == old(canvas).w(),
                canvas.h() == old(canvas).h(),
                self.queue@ == q,
                self.wf(),
                n == q.len(),
                i <= n,
                canvas.pix() == overlay_all(opix, q, i as int),
            decreases n - i,
        {
            proof {
                lemma_overlay_all_dom(opix, q, i as int);
                assert(self.queue_view()[i as int].wf());
            }
            overlay_image(canvas, &self.queue[i]);
            i += 1;
        }
        self.queue = Vec::new();
    }
}

/// Overlay one colored glyph image onto the canvas by source-over: every
/// covered in-bounds pixel is composited, out-of-bounds pixels are dropped.
fn overlay_image(canvas: &mut Canvas, img: &ColoredGlyphImage)
    requires
        old(canvas).wf(),
        img.wf(),
    ensures
        final(canvas).wf(),
        final(canvas).w() == old(canvas).w(),
        final(canvas).h() == old(canvas).h(),
        final(canvas).pix() == overlay_spec(old(canvas).pix(), *img),
{
    let ghost opix = canvas.pix();
    let cw = canvas.width();
    let ch = canvas.height();
    proof {
        canvas.lemma_wf_dom();
    }
    let mut by: u32 = 0;
    while by < img.bitmap.height
        invariant
            canvas.wf(),
            canvas.w() == old(canvas).w(),
            canvas.h() == old(canvas).h(),
            cw as int == canvas.w(),
            ch as int == canvas.h(),
            img.wf(),
            by <= img.bitmap.height,
            opix.dom() == rect_dom(cw as int, ch as int),
            canvas.pix().dom() == opix.dom(),
            forall|p: (int, int)| #[trigger] opix.dom().contains(p) ==>
                canvas.pix()[p] == partial_overlaid_px(opix, *img, by as int, 0, p),
        decreases img.bitmap.height - by,
    {
        let mut bx: u32 = 0;
        while bx < img.bitmap.width
            invariant
                canvas.wf(),
                canvas.w() == old(canvas).w(),
                canvas.h() == old(canvas).h(),
                cw as int == canvas.w(),
                ch as int == canvas.h(),
                img.wf(),
                by < img.bitmap.height,
                bx <= img.bitmap.width,
                opix.dom() == rect_dom(cw as int, ch as int),
                canvas.pix().dom() == opix.dom(),
                forall|p: (int, int)| #[trigger] opix.dom().contains(p) ==>
                    canvas.pix()[p] == partial_overlaid_px(opix, *img, by as int, bx as int, p),
            decreases img.bitmap.width - bx,
        {
            let ghost k = (img.x + bx as int, img.y + by as int);
            let cx: i64 = img.x + bx as i64;
            let cy: i64 = img.y + by as i64;
            if 0 <= cx && cx < cw as i64 && 0 <= cy && cy < ch as i64 {
                proof {
                    assert(opix.dom().contains(k));
                    assert(canvas.pix()[k] == partial_overlaid_px(opix, *img, by as int, bx as int, k));
                    assert(canvas.pix()[k] == opix[k]);
                }
                let sp = img.bitmap.px_at(bx, by);
                let old_px = canvas.get(cx as u32, cy as u32);
                let npx = src_over(sp, old_px);
                canvas.put(cx as u32, cy as u32, npx);
                proof {
                    assert(canvas.pix()[k] == src_over_px(img.bitmap.at(bx as int, by as int), opix[k]));
                }
            }
            proof {
                assert forall|p: (int, int)| #[trigger] opix.dom().contains(p) implies
                    canvas.pix()[p] == partial_overlaid_px(opix, *img, by as int, bx as int + 1, p) by {
                    if p == k {
                        assert(img.covers(p));
                        assert(img.px_over(p) == img.bitmap.at(bx as int, by as int));
                    } else {
                        assert(canvas.pix()[p] == partial_overlaid_px(opix, *img, by as int, bx as int, p));
                        assert(partial_overlaid_px(opix, *img, by as int, bx as int + 1, p)
                            == partial_overlaid_px(opix, *img, by as int, bx as int, p));
                    }
                }
            }
            bx += 1;
        }
        by += 1;
    }
    proof {
        assert(canvas.pix() =~= overlay_spec(opix, *img));
    }
}

} // verus!
