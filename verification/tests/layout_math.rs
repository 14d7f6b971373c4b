use mashq::canvas::Canvas;
use mashq::layout::{draw_origin, place_glyphs, scale_px, visual_trim, SCALE_ONE};
use mashq::render::{check_canvas_size, trim_line_end, RenderError};
use mashq::shaper::GlyphData;

fn glyph(x_advance: i32, x_offset: i32, y_offset: i32) -> GlyphData {
    GlyphData { codepoint: 1, cluster: 0, x_advance, y_advance: 0, x_offset, y_offset }
}

#[test]
fn scale_px_identity_and_rounding() {
    assert_eq!(scale_px(100, SCALE_ONE), 100);
    // half scale rounds down toward negative infinity
    assert_eq!(scale_px(3, SCALE_ONE / 2), 1);
    assert_eq!(scale_px(-3, SCALE_ONE / 2), -2);
    assert_eq!(scale_px(0, 12345), 0);
}

#[test]
fn place_glyphs_walks_the_caret() {
    let gs = vec![glyph(100, 0, 0), glyph(50, 10, 32), glyph(25, -5, 0)];
    let ps = place_glyphs(&gs, SCALE_ONE, SCALE_ONE / 2, 90).unwrap();
    assert_eq!(ps.len(), 3);
    assert_eq!((ps[0].x, ps[0].y), (0, 90));
    // caret 100 + offset 10; y: ascent 90 - 32/2
    assert_eq!((ps[1].x, ps[1].y), (110, 74));
    // caret 150 + offset -5
    assert_eq!((ps[2].x, ps[2].y), (145, 90));
}

#[test]
fn visual_trim_is_zero_for_last_line() {
    let gs = vec![glyph(100, 0, 0)];
    assert_eq!(visual_trim(&gs, SCALE_ONE, true), Some(0));
    assert_eq!(visual_trim(&gs, SCALE_ONE / 2, false), Some(50));
    let empty: Vec<GlyphData> = Vec::new();
    assert_eq!(visual_trim(&empty, SCALE_ONE, false), None);
    assert_eq!(visual_trim(&empty, SCALE_ONE, true), Some(0));
}

#[test]
fn draw_origin_places_the_bounds() {
    // x: bounds + margin - trim; y: bounds + margin + line * height
    assert_eq!(draw_origin(7, 3, 100, 40, 2, 150), (67, 403));
    assert_eq!(draw_origin(-2, -5, 10, 0, 0, 150), (8, 5));
}

#[test]
fn trim_shift_reanchors_left_edge_to_margin() {
    // The leftmost untrimmed ink column is margin + trim: re-anchoring puts
    // it exactly on the margin and shifts every glyph equally.
    let margin = 100u32;
    let trim = 40i64;
    let bbs = [40i32, 55, 90];
    let untrimmed: Vec<i64> = bbs.iter().map(|&b| draw_origin(b, 0, margin, 0, 0, 1).0).collect();
    assert_eq!(*untrimmed.iter().min().unwrap(), margin as i64 + trim);
    let trimmed: Vec<i64> = bbs.iter().map(|&b| draw_origin(b, 0, margin, trim, 0, 1).0).collect();
    assert_eq!(*trimmed.iter().min().unwrap(), margin as i64);
    for (u, t) in untrimmed.iter().zip(trimmed.iter()) {
        assert_eq!(u - t, trim);
    }
}

#[test]
fn trim_line_end_strips_trailing_whitespace() {
    let text = b"abc def \n\t";
    assert_eq!(trim_line_end(text, 0, text.len()), 7);
    assert_eq!(trim_line_end(text, 0, 3), 3);
    // a range that is all whitespace collapses to its start
    assert_eq!(trim_line_end(text, 7, text.len()), 7);
    assert_eq!(trim_line_end(text, 0, 0), 0);
}

#[test]
fn canvas_size_is_checked_against_line_count() {
    let c = Canvas::new(200, 2 * 150 + 2 * 25, (0, 0, 0, 255));
    assert!(check_canvas_size(&c, 200, 2, 150, 25).is_ok());
    assert_eq!(
        check_canvas_size(&c, 200, 3, 150, 25),
        Err(RenderError::CanvasSizeMismatch)
    );
    assert_eq!(
        check_canvas_size(&c, 100, 2, 150, 25),
        Err(RenderError::CanvasSizeMismatch)
    );
}
