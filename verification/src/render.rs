//! The line renderer: one line's inputs, the two-step glyph resolution
//! ("try color, else outline"), and the verified render pass that drives the
//! compositor — all monochrome ink first, then the colored overlays, then the
//! queue is cleared.

use crate::canvas::Canvas;
use crate::compositor::{
    draw_mask_spec, overlay_all, ColoredGlyphImage, Compositor, GlyphBitmap, GlyphMask, MAX_COORD,
};
use crate::pixel::Rgba8;
use crate::shaper::{spec_spacing_of, Variation, VariationKind};
use vstd::prelude::*;

verus! {

/// One line record from the upstream line-breaking solver: a byte range into
/// the source text and the two variation values of the line, in thousandths.
#[derive(Clone, Copy, PartialEq, Eq, Structural, Debug)]
pub struct LineInput {
    /// Byte offset of the line's start in the source text.
    pub start: usize,
    /// Byte offset one past the line's end.
    pub end: usize,
    /// Elongation ("stretch") axis value, in thousandths.
    pub stretch_milli: i32,
    /// Inter-word spacing value, in thousandths.
    pub spacing_milli: i32,
}

impl LineInput {
    /// The byte range lies within the source text.
    pub open spec fn wf(self, text_len: nat) -> bool {
        self.start <= self.end <= text_len
    }
}

/// A fatal configuration error: no partial image is valid output.
#[derive(Clone, Copy, PartialEq, Eq, Structural, Debug)]
pub enum RenderError {
    /// The canvas dimensions are inconsistent with the computed line count.
    CanvasSizeMismatch,
}

/// Check that the canvas was sized for the run: the configured width, and
/// height `line_count * line_height + 2 * margin`.
pub fn check_canvas_size(
    canvas: &Canvas,
    width: u32,
    line_count: usize,
    line_height: u32,
    margin: u32,
) -> (r: Result<(), RenderError>)
    ensures
        r is Ok <==> (canvas.w() == width as int && canvas.h() == (line_count as int) * (
        line_height as int) + 2 * (margin as int)),
{
    let ch = canvas.height();
    match (line_count as u64).checked_mul(line_height as u64) {
        Some(body) => match body.checked_add(2 * (margin as u64)) {
            Some(h) => {
                if canvas.width() == width && (ch as u64) == h {
                    Ok(())
                } else {
                    Err(RenderError::CanvasSizeMismatch)
                }
            },
            None => Err(RenderError::CanvasSizeMismatch),
        },
        None => Err(RenderError::CanvasSizeMismatch),
    }
}

/// The variation entries of one line, to apply identically to the shaping and
/// the outline engine: the stretch axis under the given tag, and the virtual
/// spacing control.
pub fn line_variations(line: LineInput, stretch_tag: [u8; 4]) -> (r: Vec<Variation>)
    ensures
        r@.len() == 2,
        r@[0].kind == VariationKind::Axis(stretch_tag),
        r@[0].value_milli == line.stretch_milli,
        r@[1].kind is Spacing,
        r@[1].value_milli == line.spacing_milli,
        spec_spacing_of(r@) == Some(line.spacing_milli),
{
    let v0 = Variation { kind: VariationKind::Axis(stretch_tag), value_milli: line.stretch_milli };
    let v1 = Variation { kind: VariationKind::Spacing, value_milli: line.spacing_milli };
    let mut r: Vec<Variation> = Vec::new();
    r.push(v0);
    r.push(v1);
    proof {
        assert(r@.drop_first() =~= seq![v1]);
        assert(seq![v1].drop_first() =~= Seq::<Variation>::empty());
        assert(spec_spacing_of(seq![v1]) == Some(line.spacing_milli));
    }
    r
}

/// A byte of the source text that counts as trailing whitespace of a line.
pub open spec fn is_line_ws(b: u8) -> bool {
    b == 32 || b == 9 || b == 10 || b == 13
}

/// The end of the line's slice after stripping trailing whitespace, used for
/// the last line only (no following line needs contextual continuity).
pub fn trim_line_end(text: &[u8], start: usize, end: usize) -> (r: usize)
    requires
        start <= end <= text@.len(),
    ensures
        start <= r <= end,
        forall|i: int| r <= i < end ==> is_line_ws(#[trigger] text@[i]),
        r > start ==> !is_line_ws(text@[r - 1]),
{
    let mut r: usize = end;
    while r > start
        invariant
            start <= r <= end,
            end <= text@.len(),
            forall|i: int| r <= i < end ==> is_line_ws(#[trigger] text@[i]),
        decreases r,
    {
        let b = text[r - 1];
        if !(b == 32 || b == 9 || b == 10 || b == 13) {
            return r;
        }
        r -= 1;
    }
    r
}

/// A coverage mask with the canvas position of its top-left corner, as the
/// outline engine rasterized it.
pub struct PlacedMask {
    /// The coverage mask.
    pub mask: GlyphMask,
    /// Canvas x of the mask's top-left corner.
    pub x: i64,
    /// Canvas y of the mask's top-left corner.
    pub y: i64,
}

impl PlacedMask {
    /// The mask is consistent and its origin within the compositor's range.
    pub open spec fn wf(self) -> bool {
        &&& self.mask.wf()
        &&& -MAX_COORD <= self.x <= MAX_COORD
        &&& -MAX_COORD <= self.y <= MAX_COORD
    }
}

/// One glyph, resolved once: either monochrome coverage drawn immediately in
/// the foreground color, or colored artwork queued for deferred overlay.
pub enum ResolvedGlyph {
    /// Drawn immediately as monochrome coverage in the foreground color.
    Monochrome {
        /// The coverage mask.
        mask: GlyphMask,
        /// Canvas x of the mask's top-left corner.
        x: i64,
        /// Canvas y of the mask's top-left corner.
        y: i64,
    },
    /// Queued and overlaid after the line's monochrome ink.
    Colored {
        /// The placed artwork.
        image: ColoredGlyphImage,
    },
}

impl ResolvedGlyph {
    /// The held mask or bitmap is consistent and in coordinate range.
    pub open spec fn wf(self) -> bool {
        match self {
            ResolvedGlyph::Monochrome { mask, x, y } => {
                &&& mask.wf()
                &&& -MAX_COORD <= x <= MAX_COORD
                &&& -MAX_COORD <= y <= MAX_COORD
            },
            ResolvedGlyph::Colored { image } => image.wf(),
        }
    }
}

/// The glyph resolution decision (fallback law): no outline means the glyph
/// is visually empty and nothing renders; with an outline, colored artwork
/// wins when present, and an absent bitmap — any failure to produce one —
/// falls back to the monochrome outline for that glyph alone, never a blank.
pub open spec fn resolved_of(outline: Option<PlacedMask>, color: Option<GlyphBitmap>) -> Option<
    ResolvedGlyph,
> {
    match outline {
        None => None,
        Some(o) => match color {
            Some(b) => Some(
                ResolvedGlyph::Colored { image: ColoredGlyphImage { x: o.x, y: o.y, bitmap: b } },
            ),
            None => Some(ResolvedGlyph::Monochrome { mask: o.mask, x: o.x, y: o.y }),
        },
    }
}

/// A well-formed outline and bitmap resolve to a well-formed glyph.
pub proof fn lemma_resolved_wf(outline: Option<PlacedMask>, color: Option<GlyphBitmap>)
    requires
        match outline {
            None => true,
            Some(o) => o.wf(),
        },
        match color {
            None => true,
            Some(b) => b.wf(),
        },
    ensures
        match resolved_of(outline, color) {
            None => true,
            Some(g) => g.wf(),
        },
{
}

/// Decide once per glyph how it renders, per [`resolved_of`].
pub fn resolve_glyph(outline: Option<PlacedMask>, color: Option<GlyphBitmap>) -> (r: Option<
    ResolvedGlyph,
>)
    ensures
        r == resolved_of(outline, color),
{
    match outline {
        None => None,
        Some(o) => match color {
            Some(b) => Some(
                ResolvedGlyph::Colored {
                    image: ColoredGlyphImage { x: o.x, y: o.y, bitmap: b },
                },
            ),
            None => Some(ResolvedGlyph::Monochrome { mask: o.mask, x: o.x, y: o.y }),
        },
    }
}

/// The canvas pixels after the monochrome pass over the first n resolved
/// glyphs: each monochrome mask blended in order, colored glyphs skipped.
pub open spec fn mono_pass(
    cpix: Map<(int, int), Rgba8>,
    gs: Seq<ResolvedGlyph>,
    n: int,
    fg: Rgba8,
) -> Map<(int, int), Rgba8>
    decreases n,
{
    if n <= 0 {
        cpix
    } else {
        let prev = mono_pass(cpix, gs, n - 1, fg);
        match gs[n - 1] {
            ResolvedGlyph::Monochrome { mask, x, y } => draw_mask_spec(prev, mask, x as int, y as int, fg),
            ResolvedGlyph::Colored { image } => prev,
        }
    }
}

/// The deferred color queue built from the first n resolved glyphs, in
/// insertion order.
pub open spec fn colored_prefix(gs: Seq<ResolvedGlyph>, n: int) -> Seq<ColoredGlyphImage>
    decreases n,
{
    if n <= 0 {
        Seq::empty()
    } else {
        let rest = colored_prefix(gs, n - 1);
        match gs[n - 1] {
            ResolvedGlyph::Monochrome { mask, x, y } => rest,
            ResolvedGlyph::Colored { image } => rest.push(image),
        }
    }
}

/// The canvas pixels after rendering one line of resolved glyphs: the
/// monochrome pass, then every colored glyph overlaid in insertion order.
pub open spec fn render_line_spec(
    cpix: Map<(int, int), Rgba8>,
    gs: Seq<ResolvedGlyph>,
    fg: Rgba8,
) -> Map<(int, int), Rgba8> {
    overlay_all(
        mono_pass(cpix, gs, gs.len() as int, fg),
        colored_prefix(gs, gs.len() as int),
        colored_prefix(gs, gs.len() as int).len() as int,
    )
}

/// The monochrome pass keeps the canvas domain: nothing is drawn outside it.
pub proof fn lemma_mono_pass_dom(
    cpix: Map<(int, int), Rgba8>,
    gs: Seq<ResolvedGlyph>,
    n: int,
    fg: Rgba8,
)
    ensures
        mono_pass(cpix, gs, n, fg).dom() == cpix.dom(),
    decreases n,
{
    if n > 0 {
        lemma_mono_pass_dom(cpix, gs, n - 1, fg);
        match gs[n - 1] {
            ResolvedGlyph::Monochrome { mask, x, y } => {
                assert(mono_pass(cpix, gs, n, fg).dom() =~= cpix.dom());
            },
            ResolvedGlyph::Colored { image } => {},
        }
    }
}

/// Law (compositing order, at the line level): wherever the line's last
/// colored glyph lands an opaque pixel on the canvas, the rendered line shows
/// exactly that pixel — no monochrome glyph of the same line can occlude it,
/// whatever the draw order suggested by their positions.
pub proof fn lemma_colored_over_monochrome(
    cpix: Map<(int, int), Rgba8>,
    gs: Seq<ResolvedGlyph>,
    fg: Rgba8,
    p: (int, int),
)
    requires
        cpix.dom().contains(p),
        colored_prefix(gs, gs.len() as int).len() > 0,
        colored_prefix(gs, gs.len() as int).last().covers(p),
        colored_prefix(gs, gs.len() as int).last().px_over(p).3 == 255,
    ensures
        render_line_spec(cpix, gs, fg)[p] == colored_prefix(gs, gs.len() as int).last().px_over(
            p,
        ),
{
    lemma_mono_pass_dom(cpix, gs, gs.len() as int, fg);
    crate::compositor::lemma_last_colored_on_top(
        mono_pass(cpix, gs, gs.len() as int, fg),
        colored_prefix(gs, gs.len() as int),
        p,
    );
}

/// Law (idempotence): the rendered pixels are a pure function of the starting
/// pixels and the resolved glyphs, so rendering the same line twice onto
/// canvases with equal pixels leaves their pixels — and hence their byte
/// buffers — equal.
pub proof fn lemma_render_deterministic(
    cpix1: Map<(int, int), Rgba8>,
    cpix2: Map<(int, int), Rgba8>,
    gs: Seq<ResolvedGlyph>,
    fg: Rgba8,
)
    requires
        cpix1 == cpix2,
    ensures
        render_line_spec(cpix1, gs, fg) == render_line_spec(cpix2, gs, fg),
{
}

/// Render one line of resolved glyphs onto the canvas: begin the line, draw
/// every monochrome mask in order, queue every colored image in order, then
/// overlay the queue and clear it.
pub fn render_line(
    canvas: &mut Canvas,
    comp: &mut Compositor,
    glyphs: Vec<ResolvedGlyph>,
    fg: Rgba8,
)
    requires
        old(canvas).wf(),
        forall|i: int| 0 <= i < glyphs@.len() ==> (#[trigger] glyphs@[i]).wf(),
    ensures
        final(canvas).wf(),
        final(canvas).w() == old(canvas).w(),
        final(canvas).h() == old(canvas).h(),
        final(canvas).pix() == render_line_spec(old(canvas).pix(), glyphs@, fg),
        final(comp).queue_view() == Seq::<ColoredGlyphImage>::empty(),
{
    let ghost gseq = glyphs@;
    let ghost opix = canvas.pix();
    comp.begin_line();

    // Reverse the glyphs so they can be consumed by value in line order.
    let mut v = glyphs;
    let n_total: usize = v.len();
    let mut rev: Vec<ResolvedGlyph> = Vec::new();
    proof {
        assert(gseq.take(v@.len() as int) =~= gseq);
        assert(gseq.skip(v@.len() as int).reverse() =~= Seq::<ResolvedGlyph>::empty());
    }
    while v.len() > 0
        invariant
            v@.len() <= gseq.len(),
            v@ == gseq.take(v@.len() as int),
            rev@ == gseq.skip(v@.len() as int).reverse(),
        decreases v@.len(),
    {
        let ghost k = v@.len() as int;
        let g = v.pop().unwrap();
        rev.push(g);
        proof {
            assert(gseq.take(k).drop_last() =~= gseq.take(k - 1));
            assert(g == gseq[k - 1]);
            assert(rev@ =~= gseq.skip(k - 1).reverse());
        }
    }

    let mut i: usize = 0;
    proof {
        assert(gseq.skip(0).reverse() =~= gseq.reverse());
        assert(rev@ == gseq.skip(0).reverse());
    }
    while rev.len() > 0
        invariant
            gseq.len() == n_total as int,
            i + rev@.len() == n_total as int,
            rev@ == gseq.skip(i as int).reverse(),
            canvas.wf(),
            canvas.w() == old(canvas).w(),
            canvas.h() == old(canvas).h(),
            canvas.pix() == mono_pass(opix, gseq, i as int, fg),
            comp.wf(),
            comp.queue_view() == colored_prefix(gseq, i as int),
            forall|j: int| 0 <= j < gseq.len() ==> (#[trigger] gseq[j]).wf(),
        decreases rev@.len(),
    {
        let g = rev.pop().unwrap();
        proof {
            assert(gseq.skip(i as int).reverse().last() == gseq.skip(i as int)[0]);
            assert(g == gseq[i as int]);
            assert(rev@ =~= gseq.skip(i as int + 1).reverse());
            assert(gseq[i as int].wf());
        }
        match g {
            ResolvedGlyph::Monochrome { mask, x, y } => {
                comp.draw_outline(canvas, &mask, x, y, fg);
            },
            ResolvedGlyph::Colored { image } => {
                comp.queue_color(image);
            },
        }
        i += 1;
    }
    comp.end_line(canvas);
}

} // verus!
