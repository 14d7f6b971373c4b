//! Placement arithmetic for one line: the caret walk over shaped glyph
//! records, conversion from font design units to pixels through a fixed-point
//! scale factor, the re-anchor trim for lines shaped in context, and the draw
//! origin of each glyph on the shared canvas.

use crate::shaper::GlyphData;
use vstd::arithmetic::div_mod::{lemma_div_is_ordered, lemma_fundamental_div_mod, lemma_fundamental_div_mod_converse_div};
use vstd::prelude::*;

verus! {

/// Fixed-point denominator for pixel scale factors: a scale numerator of
/// `SCALE_ONE` means one pixel per font unit.
pub const SCALE_ONE: u32 = 65536;

/// The widest font-unit magnitude a scale conversion accepts.
pub const MAX_UNITS: i64 = 0x8000_0000;

/// The widest scale numerator a scale conversion accepts.
pub const MAX_SCALE: u32 = 0x4000_0000;

/// `v` font units through a scale factor of `num / SCALE_ONE` pixels per
/// unit, rounded down.
pub open spec fn scale_floor(v: int, num: int) -> int {
    (v * num) / (SCALE_ONE as int)
}

/// Floor division of `n` by `SCALE_ONE`.
fn floor_div_scale(n: i64) -> (r: i64)
    ensures
        r as int == (n as int) / (SCALE_ONE as int),
{
    if n >= 0 {
        let q = (n as u64) / (SCALE_ONE as u64);
        q as i64
    } else {
        let m: u64 = (-(n + 1)) as u64 + 1;
        let qd: u64 = m / (SCALE_ONE as u64);
        let rm: u64 = m % (SCALE_ONE as u64);
        proof {
            assert(m as int == -(n as int));
            lemma_fundamental_div_mod(m as int, SCALE_ONE as int);
            if rm == 0 {
                lemma_fundamental_div_mod_converse_div(n as int, SCALE_ONE as int, -(qd as int), 0);
            } else {
                lemma_fundamental_div_mod_converse_div(
                    n as int,
                    SCALE_ONE as int,
                    -(qd as int) - 1,
                    SCALE_ONE as int - rm as int,
                );
            }
        }
        if rm == 0 {
            -(qd as i64)
        } else {
            -(qd as i64) - 1
        }
    }
}

/// Convert `v` font units to pixels through the scale numerator `num`.
pub fn scale_px(v: i64, num: u32) -> (r: i64)
    requires
        -MAX_UNITS <= v <= MAX_UNITS,
        num <= MAX_SCALE,
    ensures
        r as int == scale_floor(v as int, num as int),
        -0x2000_0000_0000 <= r <= 0x2000_0000_0000,
{
    proof {
        assert(-0x2000_0000_0000_0000 <= (v as int) * (num as int) <= 0x2000_0000_0000_0000)
            by (nonlinear_arith)
            requires
                -0x8000_0000 <= v <= 0x8000_0000,
                0 <= num <= 0x4000_0000,
        ;
    }
    let n: i64 = v * (num as i64);
    let r = floor_div_scale(n);
    proof {
        lemma_div_is_ordered(-0x2000_0000_0000_0000, n as int, SCALE_ONE as int);
        lemma_div_is_ordered(n as int, 0x2000_0000_0000_0000, SCALE_ONE as int);
        lemma_fundamental_div_mod_converse_div(
            -0x2000_0000_0000_0000,
            SCALE_ONE as int,
            -0x2000_0000_0000,
            0,
        );
        lemma_fundamental_div_mod_converse_div(
            0x2000_0000_0000_0000,
            SCALE_ONE as int,
            0x2000_0000_0000,
            0,
        );
    }
    r
}

/// The caret before glyph `i`: the sum of the advances of the glyphs before
/// it, in font units. The caret starts at zero and moves by each glyph's
/// advance after the glyph is placed.
pub open spec fn caret_at(gs: Seq<GlyphData>, i: int) -> int
    decreases i,
{
    if i <= 0 {
        0
    } else {
        caret_at(gs, i - 1) + gs[i - 1].x_advance
    }
}

/// The pen x of glyph `i` in pixels: caret plus the glyph's own offset,
/// through the horizontal scale.
pub open spec fn pen_x(gs: Seq<GlyphData>, i: int, num_h: int) -> int {
    scale_floor(caret_at(gs, i) + gs[i].x_offset, num_h)
}

/// The pen y of glyph `i` in pixels: the baseline (the font ascent at the
/// active instancing) minus the glyph's vertical offset through the vertical
/// scale.
pub open spec fn pen_y(gs: Seq<GlyphData>, i: int, num_v: int, ascent_px: int) -> int {
    ascent_px - scale_floor(gs[i].y_offset as int, num_v)
}

/// Every caret value and every pen input of the sequence stays within the
/// range the scale conversion accepts.
pub open spec fn placeable(gs: Seq<GlyphData>) -> bool {
    &&& forall|i: int| 0 <= i <= gs.len() ==> -MAX_UNITS <= #[trigger] caret_at(gs, i) <= MAX_UNITS
    &&& forall|i: int|
        0 <= i < gs.len() ==> -MAX_UNITS <= caret_at(gs, i) + (#[trigger] gs[i]).x_offset
            <= MAX_UNITS
}

/// One glyph resolved to its absolute pen position in pixels.
#[derive(Clone, Copy, PartialEq, Eq, Structural, Debug)]
pub struct PenPosition {
    /// Font-local glyph id, as shaped.
    pub glyph_id: u32,
    /// Pen x in pixels.
    pub x: i64,
    /// Pen y in pixels.
    pub y: i64,
}

/// Walk the shaped glyphs with a caret and place each at its absolute pen
/// position in pixels. Returns `None` exactly when some caret or pen value
/// leaves the range the scale conversion accepts — a coordinate overflow, not
/// a renderable line.
pub fn place_glyphs(gs: &Vec<GlyphData>, num_h: u32, num_v: u32, ascent_px: i32) -> (r: Option<
    Vec<PenPosition>,
>)
    requires
        num_h <= MAX_SCALE,
        num_v <= MAX_SCALE,
    ensures
        match r {
            Some(ps) => {
                &&& placeable(gs@)
                &&& ps@.len() == gs@.len()
                &&& forall|i: int|
                    0 <= i < gs@.len() ==> {
                        &&& (#[trigger] ps@[i]).glyph_id == gs@[i].codepoint
                        &&& ps@[i].x == pen_x(gs@, i, num_h as int)
                        &&& ps@[i].y == pen_y(gs@, i, num_v as int, ascent_px as int)
                    }
            },
            None => !placeable(gs@),
        },
{
    let n = gs.len();
    let mut out: Vec<PenPosition> = Vec::new();
    let mut caret: i64 = 0;
    let mut i: usize = 0;
    while i < n
        invariant
            i <= n,
            n == gs@.len(),
            num_h <= MAX_SCALE,
            num_v <= MAX_SCALE,
            caret as int == caret_at(gs@, i as int),
            -MAX_UNITS <= caret <= MAX_UNITS,
            out@.len() == i,
            forall|j: int| 0 <= j <= i ==> -MAX_UNITS <= #[trigger] caret_at(gs@, j) <= MAX_UNITS,
            forall|j: int|
                0 <= j < i ==> -MAX_UNITS <= caret_at(gs@, j) + (#[trigger] gs@[j]).x_offset
                    <= MAX_UNITS,
            forall|j: int|
                0 <= j < i ==> {
                    &&& (#[trigger] out@[j]).glyph_id == gs@[j].codepoint
                    &&& out@[j].x == pen_x(gs@, j, num_h as int)
                    &&& out@[j].y == pen_y(gs@, j, num_v as int, ascent_px as int)
                },
        decreases n - i,
    {
        let g = gs[i];
        let pen_units: i64 = caret + (g.x_offset as i64);
        if pen_units < -MAX_UNITS || pen_units > MAX_UNITS {
            proof {
                assert(caret_at(gs@, i as int) + gs@[i as int].x_offset == pen_units as int);
                assert(!placeable(gs@));
            }
            return None;
        }
        let px = scale_px(pen_units, num_h);
        let py_off = scale_px(g.y_offset as i64, num_v);
        let py: i64 = (ascent_px as i64) - py_off;
        out.push(PenPosition { glyph_id: g.codepoint, x: px, y: py });
        let next: i64 = caret + (g.x_advance as i64);
        if next < -MAX_UNITS || next > MAX_UNITS {
            proof {
                assert(caret_at(gs@, i as int + 1) == next as int);
                assert(!placeable(gs@));
            }
            return None;
        }
        caret = next;
        i += 1;
    }
    Some(out)
}

/// The horizontal re-anchor offset of a line, in pixels: zero for the last
/// line (shaped standalone), else the scaled advance of the first glyph of
/// the context run, which every draw x is pulled back by.
pub open spec fn trim_of(gs: Seq<GlyphData>, num_h: int, is_last: bool) -> int {
    if is_last {
        0
    } else {
        scale_floor(gs[0].x_advance as int, num_h)
    }
}

/// Compute the re-anchor offset. `None` exactly when a non-last line shaped
/// to no glyphs at all, which leaves no anchor to measure.
pub fn visual_trim(gs: &Vec<GlyphData>, num_h: u32, is_last: bool) -> (r: Option<i64>)
    requires
        num_h <= MAX_SCALE,
    ensures
        match r {
            Some(t) => t as int == trim_of(gs@, num_h as int, is_last),
            None => !is_last && gs@.len() == 0,
        },
        r is None <==> (!is_last && gs@.len() == 0),
{
    if is_last {
        Some(0)
    } else if gs.len() == 0 {
        None
    } else {
        Some(scale_px(gs[0].x_advance as i64, num_h))
    }
}

/// The draw x of a glyph whose rasterized bounds start at `bb_min_x`: the
/// margin column, shifted by the bounds, pulled back by the re-anchor trim.
pub open spec fn origin_x(bb_min_x: int, margin: int, trim: int) -> int {
    bb_min_x + margin - trim
}

/// The draw y of a glyph whose rasterized bounds start at `bb_min_y`, on line
/// `line_index` of the canvas.
pub open spec fn origin_y(bb_min_y: int, margin: int, line_index: int, line_height: int) -> int {
    bb_min_y + margin + line_index * line_height
}

/// Place a glyph's rasterized bounds on the canvas.
pub fn draw_origin(
    bb_min_x: i32,
    bb_min_y: i32,
    margin: u32,
    trim: i64,
    line_index: u32,
    line_height: u32,
) -> (r: (i64, i64))
    requires
        -0x1_0000_0000_0000 <= trim <= 0x1_0000_0000_0000,
        (line_index as int) * (line_height as int) <= 0x1_0000_0000_0000,
    ensures
        r.0 == origin_x(bb_min_x as int, margin as int, trim as int),
        r.1 == origin_y(bb_min_y as int, margin as int, line_index as int, line_height as int),
{
    proof {
        assert(0 <= (line_index as int) * (line_height as int)) by (nonlinear_arith);
    }
    let x: i64 = (bb_min_x as i64) + (margin as i64) - trim;
    let y: i64 = (bb_min_y as i64) + (margin as i64) + (line_index as i64) * (line_height as i64);
    (x, y)
}

/// Law (re-anchoring): pulling every draw x back by the trim moves the
/// line's left ink edge onto the margin column exactly. If glyph `j` is the
/// leftmost of the line before re-anchoring and its untrimmed draw x is
/// `margin + trim`, then after re-anchoring glyph `j` sits exactly on the
/// margin column and no glyph sits left of it.
pub proof fn lemma_trim_reanchors(bbs: Seq<int>, margin: int, trim: int, j: int)
    requires
        0 <= j < bbs.len(),
        forall|i: int|
            0 <= i < bbs.len() ==> origin_x(bbs[j], margin, 0) <= origin_x(
                #[trigger] bbs[i],
                margin,
                0,
            ),
        origin_x(bbs[j], margin, 0) == margin + trim,
    ensures
        origin_x(bbs[j], margin, trim) == margin,
        forall|i: int| 0 <= i < bbs.len() ==> margin <= origin_x(#[trigger] bbs[i], margin, trim),
{
}

} // verus!
