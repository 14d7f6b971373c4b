//! RGBA pixel values and the two blending operations of the compositor:
//! linear coverage blending for monochrome glyph masks, and source-over
//! compositing for colored glyph artwork.

use vstd::arithmetic::div_mod::{lemma_div_by_multiple, lemma_div_is_ordered};
use vstd::prelude::*;

verus! {

/// One pixel as (red, green, blue, alpha), one byte per channel, straight
/// (non-premultiplied) alpha.
pub type Rgba8 = (u8, u8, u8, u8);

/// Linear interpolation of one channel: weight `w` (out of 255) of the
/// foreground against `255 - w` of the background, truncated.
pub open spec fn blend_channel(fg: u8, bg: u8, w: u8) -> u8 {
    (((fg as int) * (w as int) + (bg as int) * (255 - w as int)) / 255) as u8
}

/// Coverage blending of a foreground color over a background pixel:
/// `w == 255` gives the foreground, `w == 0` the background untouched.
pub open spec fn blend_px(fg: Rgba8, bg: Rgba8, w: u8) -> Rgba8 {
    (
        blend_channel(fg.0, bg.0, w),
        blend_channel(fg.1, bg.1, w),
        blend_channel(fg.2, bg.2, w),
        blend_channel(fg.3, bg.3, w),
    )
}

/// Source-over compositing of `src` onto `dst`: every color channel is
/// `(src * srcA + dst * (255 - srcA)) / 255` and the result alpha is
/// `srcA + dstA * (255 - srcA) / 255`. This is standard source-over for an
/// opaque destination, which the canvas starts as and keeps.
pub open spec fn src_over_px(src: Rgba8, dst: Rgba8) -> Rgba8 {
    (
        blend_channel(src.0, dst.0, src.3),
        blend_channel(src.1, dst.1, src.3),
        blend_channel(src.2, dst.2, src.3),
        ((src.3 as int) + ((dst.3 as int) * (255 - src.3 as int)) / 255) as u8,
    )
}

proof fn lemma_blend_channel_bounds(fg: u8, bg: u8, w: u8)
    ensures
        0 <= (fg as int) * (w as int) + (bg as int) * (255 - w as int) <= 65025,
        0 <= ((fg as int) * (w as int) + (bg as int) * (255 - w as int)) / 255 <= 255,
{
    assert(0 <= (fg as int) * (w as int) + (bg as int) * (255 - w as int) <= 65025)
        by (nonlinear_arith)
        requires
            fg <= 255,
            bg <= 255,
            w <= 255,
    ;
    let n = (fg as int) * (w as int) + (bg as int) * (255 - w as int);
    lemma_div_is_ordered(0, n, 255);
    lemma_div_is_ordered(n, 65025, 255);
}

fn blend_channel_exec(fg: u8, bg: u8, w: u8) -> (r: u8)
    ensures
        r == blend_channel(fg, bg, w),
{
    proof {
        lemma_blend_channel_bounds(fg, bg, w);
    }
    let n: u32 = (fg as u32) * (w as u32) + (bg as u32) * (255 - w as u32);
    (n / 255) as u8
}

/// Blend the foreground color `fg` over `bg` with coverage weight `w`.
pub fn blend(fg: Rgba8, bg: Rgba8, w: u8) -> (r: Rgba8)
    ensures
        r == blend_px(fg, bg, w),
{
    (
        blend_channel_exec(fg.0, bg.0, w),
        blend_channel_exec(fg.1, bg.1, w),
        blend_channel_exec(fg.2, bg.2, w),
        blend_channel_exec(fg.3, bg.3, w),
    )
}

/// Composite `src` over `dst` by source-over.
pub fn src_over(src: Rgba8, dst: Rgba8) -> (r: Rgba8)
    ensures
        r == src_over_px(src, dst),
{
    proof {
        lemma_blend_channel_bounds(0, dst.3, src.3);
        assert((dst.3 as int) * (255 - src.3 as int) ==
            0 * (src.3 as int) + (dst.3 as int) * (255 - src.3 as int));
        assert((dst.3 as int) * (255 - src.3 as int) / 255 <= 255 - src.3 as int) by (nonlinear_arith)
            requires
                dst.3 <= 255,
                src.3 <= 255,
                (dst.3 as int) * (255 - src.3 as int) / 255 <= 255,
                (dst.3 as int) * (255 - src.3 as int) <= 65025,
        ;
    }
    let extra: u32 = ((dst.3 as u32) * (255 - src.3 as u32)) / 255;
    let a: u8 = src.3 + (extra as u8);
    (
        blend_channel_exec(src.0, dst.0, src.3),
        blend_channel_exec(src.1, dst.1, src.3),
        blend_channel_exec(src.2, dst.2, src.3),
        a,
    )
}

/// Law: full coverage paints the foreground color exactly.
pub proof fn lemma_blend_full(fg: Rgba8, bg: Rgba8)
    ensures
        blend_px(fg, bg, 255) == fg,
{
    lemma_blend_channel_full(fg.0, bg.0);
    lemma_blend_channel_full(fg.1, bg.1);
    lemma_blend_channel_full(fg.2, bg.2);
    lemma_blend_channel_full(fg.3, bg.3);
}

/// Law: zero coverage leaves the background pixel untouched.
pub proof fn lemma_blend_none(fg: Rgba8, bg: Rgba8)
    ensures
        blend_px(fg, bg, 0) == bg,
{
    lemma_blend_channel_none(fg.0, bg.0);
    lemma_blend_channel_none(fg.1, bg.1);
    lemma_blend_channel_none(fg.2, bg.2);
    lemma_blend_channel_none(fg.3, bg.3);
}

/// Law: a fully opaque source pixel replaces the destination outright, so an
/// opaque colored glyph pixel covers whatever monochrome ink lies under it.
pub proof fn lemma_src_over_opaque(src: Rgba8, dst: Rgba8)
    requires
        src.3 == 255,
    ensures
        src_over_px(src, dst) == src,
{
    lemma_blend_channel_full(src.0, dst.0);
    lemma_blend_channel_full(src.1, dst.1);
    lemma_blend_channel_full(src.2, dst.2);
    assert((dst.3 as int) * (255 - 255) == 0);
    assert(0int / 255int == 0int);
}

/// Law: a fully transparent source pixel leaves the destination untouched.
pub proof fn lemma_src_over_transparent(src: Rgba8, dst: Rgba8)
    requires
        src.3 == 0,
    ensures
        src_over_px(src, dst) == dst,
{
    lemma_blend_channel_none(src.0, dst.0);
    lemma_blend_channel_none(src.1, dst.1);
    lemma_blend_channel_none(src.2, dst.2);
    lemma_div_by_multiple(dst.3 as int, 255);
    assert((dst.3 as int) * (255 - 0) == (dst.3 as int) * 255);
}

proof fn lemma_blend_channel_full(fg: u8, bg: u8)
    ensures
        blend_channel(fg, bg, 255) == fg,
{
    lemma_div_by_multiple(fg as int, 255);
    assert((fg as int) * 255 + (bg as int) * (255 - 255) == (fg as int) * 255);
}

proof fn lemma_blend_channel_none(fg: u8, bg: u8)
    ensures
        blend_channel(fg, bg, 0) == bg,
{
    lemma_div_by_multiple(bg as int, 255);
    assert((fg as int) * 0 + (bg as int) * (255 - 0) == (bg as int) * 255);
}

} // verus!
