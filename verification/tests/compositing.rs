use mashq::canvas::Canvas;
use mashq::compositor::{ColoredGlyphImage, Compositor, GlyphBitmap, GlyphMask};

const BG: (u8, u8, u8, u8) = (0, 0, 0, 255);
const FG: (u8, u8, u8, u8) = (180, 137, 57, 255);

fn full_mask(w: u32, h: u32) -> GlyphMask {
    GlyphMask::new(w, h, vec![255; (w * h) as usize]).unwrap()
}

fn solid_bitmap(w: u32, h: u32, px: (u8, u8, u8, u8)) -> GlyphBitmap {
    GlyphBitmap::new(w, h, vec![px; (w * h) as usize]).unwrap()
}

#[test]
fn draw_outline_blends_full_coverage_to_foreground() {
    let mut c = Canvas::new(6, 6, BG);
    let comp = Compositor::new();
    comp.draw_outline(&mut c, &full_mask(2, 2), 1, 1, FG);
    assert_eq!(c.get(1, 1), FG);
    assert_eq!(c.get(2, 2), FG);
    assert_eq!(c.get(0, 0), BG);
    assert_eq!(c.get(3, 3), BG);
}

#[test]
fn draw_outline_zero_coverage_leaves_background() {
    let mut c = Canvas::new(4, 4, BG);
    let comp = Compositor::new();
    let m = GlyphMask::new(2, 1, vec![0, 255]).unwrap();
    comp.draw_outline(&mut c, &m, 0, 0, FG);
    assert_eq!(c.get(0, 0), BG);
    assert_eq!(c.get(1, 0), FG);
}

#[test]
fn out_of_bounds_pixels_are_dropped() {
    // Mask hangs over the top-left corner: only the in-bounds quarter draws.
    let mut c = Canvas::new(4, 4, BG);
    let comp = Compositor::new();
    comp.draw_outline(&mut c, &full_mask(2, 2), -1, -1, FG);
    assert_eq!(c.get(0, 0), FG);
    assert_eq!(c.get(1, 0), BG);
    assert_eq!(c.get(0, 1), BG);
    // And over the bottom-right corner.
    comp.draw_outline(&mut c, &full_mask(3, 3), 3, 3, FG);
    assert_eq!(c.get(3, 3), FG);
    assert_eq!(c.get(2, 2), BG);
}

#[test]
fn end_line_overlays_in_insertion_order() {
    let mut c = Canvas::new(6, 6, BG);
    let mut comp = Compositor::new();
    comp.begin_line();
    let first = (10, 10, 10, 255);
    let second = (200, 200, 200, 255);
    comp.queue_color(ColoredGlyphImage { x: 1, y: 1, bitmap: solid_bitmap(2, 2, first) });
    comp.queue_color(ColoredGlyphImage { x: 2, y: 1, bitmap: solid_bitmap(2, 2, second) });
    comp.end_line(&mut c);
    // Overlap column x=2: the later image wins.
    assert_eq!(c.get(1, 1), first);
    assert_eq!(c.get(2, 1), second);
    assert_eq!(c.get(3, 1), second);
}

#[test]
fn begin_line_clears_the_queue() {
    let mut c = Canvas::new(4, 4, BG);
    let mut comp = Compositor::new();
    comp.queue_color(ColoredGlyphImage { x: 0, y: 0, bitmap: solid_bitmap(2, 2, (1, 2, 3, 255)) });
    comp.begin_line();
    comp.end_line(&mut c);
    for y in 0..4 {
        for x in 0..4 {
            assert_eq!(c.get(x, y), BG);
        }
    }
}

#[test]
fn colored_overlay_covers_monochrome_overlap() {
    // One monochrome glyph, one colored glyph overlapping it: the overlap
    // shows the colored glyph's pixels even though it was queued first.
    let mut c = Canvas::new(6, 6, BG);
    let mut comp = Compositor::new();
    comp.begin_line();
    let colored = (9, 99, 199, 255);
    comp.queue_color(ColoredGlyphImage { x: 2, y: 2, bitmap: solid_bitmap(2, 2, colored) });
    comp.draw_outline(&mut c, &full_mask(3, 3), 1, 1, FG);
    comp.end_line(&mut c);
    // Overlap region (2..4)x(2..4) intersected with the mask (1..4)x(1..4).
    assert_eq!(c.get(2, 2), colored);
    assert_eq!(c.get(3, 3), colored);
    // Monochrome-only region keeps the foreground.
    assert_eq!(c.get(1, 1), FG);
}
