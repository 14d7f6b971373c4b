use mashq::canvas::Canvas;
use mashq::compositor::{Compositor, GlyphBitmap, GlyphMask};
use mashq::layout::{draw_origin, place_glyphs, visual_trim, SCALE_ONE};
use mashq::render::{
    check_canvas_size, line_variations, resolve_glyph, LineInput, PlacedMask, ResolvedGlyph,
};
use mashq::shaper::{FixedShaper, GlyphData, Shaper};

const BG: (u8, u8, u8, u8) = (19, 42, 74, 255);
const FG: (u8, u8, u8, u8) = (180, 137, 57, 255);
const BLUE: (u8, u8, u8, u8) = (0, 0, 200, 255);

const MARGIN: u32 = 4;
const LINE_HEIGHT: u32 = 10;
const WIDTH: u32 = 30;

fn glyph(codepoint: u32, x_advance: i32) -> GlyphData {
    GlyphData { codepoint, cluster: 0, x_advance, y_advance: 0, x_offset: 0, y_offset: 0 }
}

fn full_mask(w: u32, h: u32) -> GlyphMask {
    GlyphMask::new(w, h, vec![255; (w * h) as usize]).unwrap()
}

/// Resolve the two glyphs of the line: A has only an outline, B has an
/// outline and colored artwork whose bounds overlap A's in x.
fn resolve_ab(line_index: u32) -> Vec<ResolvedGlyph> {
    let shaper = FixedShaper::from_script(vec![glyph(1, 5), glyph(2, 5)], 9, 5);
    let line = LineInput { start: 0, end: 2, stretch_milli: 1000, spacing_milli: 1000 };
    let vars = line_variations(line, *b"MSHQ");
    let shaped = shaper.shape("AB", &vars);
    assert_eq!(shaped.len(), 2);
    // One pixel per font unit, baseline 6 below the line's top.
    let pens = place_glyphs(&shaped, SCALE_ONE, SCALE_ONE, 6).unwrap();
    let trim = visual_trim(&shaped, SCALE_ONE, true).unwrap();
    assert_eq!(trim, 0);

    let mut out = Vec::new();
    // Glyph A: rasterized bounds start at its pen x, 3 above the baseline.
    let (ax, ay) = draw_origin(pens[0].x as i32, -3, MARGIN, trim, line_index, LINE_HEIGHT);
    out.push(
        resolve_glyph(Some(PlacedMask { mask: full_mask(3, 3), x: ax, y: ay }), None).unwrap(),
    );
    // Glyph B: its artwork's bounds reach one pixel into A's.
    let (bx, by) = draw_origin(pens[1].x as i32 - 4, -3, MARGIN, trim, line_index, LINE_HEIGHT);
    let bitmap = GlyphBitmap::new(3, 3, vec![BLUE; 9]).unwrap();
    out.push(
        resolve_glyph(Some(PlacedMask { mask: full_mask(3, 3), x: bx, y: by }), Some(bitmap))
            .unwrap(),
    );
    out
}

fn render_last_line_of_two(c: &mut Canvas) {
    let glyphs = resolve_ab(1);
    let mut comp = Compositor::new();
    mashq::render::render_line(c, &mut comp, glyphs, FG);
}

#[test]
fn two_line_canvas_and_ab_line() {
    // Canvas sized for a two-line sequence; "AB" is the single last line.
    let height = 2 * LINE_HEIGHT + 2 * MARGIN;
    let mut c = Canvas::new(WIDTH, height, BG);
    assert_eq!(c.height(), 28);
    assert!(check_canvas_size(&c, WIDTH, 2, LINE_HEIGHT, MARGIN).is_ok());
    render_last_line_of_two(&mut c);

    // A (pen x 0) draws at (4, 11) as a monochrome blend of the foreground.
    assert_eq!(c.get(4, 11), FG);
    assert_eq!(c.get(4, 13), FG);
    // B's colored artwork draws at (5, 11): its whole box shows the artwork,
    // including the column where A's mask overlapped — colored ink is drawn
    // after monochrome ink regardless of x overlap.
    assert_eq!(c.get(5, 11), BLUE);
    assert_eq!(c.get(6, 12), BLUE);
    assert_eq!(c.get(7, 13), BLUE);
    // Outside both glyphs the background is untouched.
    assert_eq!(c.get(0, 0), BG);
    assert_eq!(c.get(10, 11), BG);
    assert_eq!(c.get(4, 20), BG);
}

#[test]
fn rendering_twice_is_byte_identical() {
    let height = 2 * LINE_HEIGHT + 2 * MARGIN;
    let mut c1 = Canvas::new(WIDTH, height, BG);
    let mut c2 = Canvas::new(WIDTH, height, BG);
    render_last_line_of_two(&mut c1);
    render_last_line_of_two(&mut c2);
    assert_eq!(c1.into_bytes(), c2.into_bytes());
}

#[test]
fn failed_color_lookup_falls_back_to_outline() {
    // The same glyph with its colored artwork missing renders via the
    // outline path in the foreground color — never blank.
    let mut c = Canvas::new(WIDTH, 2 * LINE_HEIGHT + 2 * MARGIN, BG);
    let g = resolve_glyph(
        Some(PlacedMask { mask: full_mask(2, 2), x: 6, y: 6 }),
        None,
    )
    .unwrap();
    assert!(matches!(g, ResolvedGlyph::Monochrome { .. }));
    let mut comp = Compositor::new();
    mashq::render::render_line(&mut c, &mut comp, vec![g], FG);
    assert_eq!(c.get(6, 6), FG);
    assert_eq!(c.get(7, 7), FG);
    assert_ne!(c.get(6, 6), BG);
}

#[test]
fn whitespace_glyph_resolves_to_nothing() {
    // No outline means a visually empty glyph: skipped, no error, no ink.
    assert!(resolve_glyph(None, None).is_none());
    let bitmap = GlyphBitmap::new(1, 1, vec![BLUE]).unwrap();
    assert!(resolve_glyph(None, Some(bitmap)).is_none());
}

#[test]
fn shaper_trait_drives_the_same_pipeline() {
    let mut shaper = FixedShaper::from_script(vec![glyph(1, 5)], 9, 5);
    let shaped = Shaper::shape_text(&mut shaper, "A", &[]);
    assert_eq!(shaped.len(), 1);
    assert_eq!(shaped[0].x_advance, 5);
}
