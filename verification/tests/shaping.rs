use mashq::render::{line_variations, LineInput};
use mashq::shaper::{
    apply_spacing, axis_settings, find_spacing, scale_advance_milli, FixedShaper, GlyphData,
    Shaper, Variation, VariationKind,
};

fn glyph(codepoint: u32, x_advance: i32) -> GlyphData {
    GlyphData { codepoint, cluster: 0, x_advance, y_advance: 0, x_offset: 0, y_offset: 0 }
}

#[test]
fn find_spacing_takes_first_spacing_entry() {
    let vars = vec![
        Variation { kind: VariationKind::Axis(*b"MSHQ"), value_milli: 53_000 },
        Variation { kind: VariationKind::Spacing, value_milli: 1500 },
        Variation { kind: VariationKind::Spacing, value_milli: 9999 },
    ];
    assert_eq!(find_spacing(&vars), Some(1500));
    assert_eq!(find_spacing(&vars[..1]), None);
}

#[test]
fn axis_settings_keeps_axes_in_order() {
    let vars = vec![
        Variation { kind: VariationKind::Axis(*b"MSHQ"), value_milli: 53_000 },
        Variation { kind: VariationKind::Spacing, value_milli: 1500 },
        Variation { kind: VariationKind::Axis(*b"SPAC"), value_milli: 700 },
    ];
    let axes = axis_settings(&vars);
    assert_eq!(axes.len(), 2);
    assert_eq!(axes[0].tag, *b"MSHQ");
    assert_eq!(axes[0].value_milli, 53_000);
    assert_eq!(axes[1].tag, *b"SPAC");
    assert_eq!(axes[1].value_milli, 700);
}

#[test]
fn spacing_replaces_space_advances_only() {
    let glyphs = vec![glyph(7, 100), glyph(3, 480), glyph(7, 100)];
    let out = apply_spacing(glyphs, 3, 480, Some(1500));
    assert_eq!(out[0].x_advance, 100);
    assert_eq!(out[1].x_advance, 720); // 480 * 1.5
    assert_eq!(out[2].x_advance, 100);
}

#[test]
fn absent_spacing_leaves_advances_untouched() {
    let glyphs = vec![glyph(3, 480), glyph(7, 100)];
    let out = apply_spacing(glyphs.clone(), 3, 480, None);
    assert_eq!(out, glyphs);
}

#[test]
fn spacing_rounds_to_nearest_unit() {
    // 7 * 0.5 = 3.5 rounds up to 4; 7 * 0.35 = 2.45 rounds down to 2.
    assert_eq!(scale_advance_milli(7, 500), 4);
    assert_eq!(scale_advance_milli(7, 350), 2);
}

#[test]
fn doubling_spacing_doubles_interword_advance() {
    let glyphs = vec![glyph(1, 300), glyph(9, 500), glyph(2, 300), glyph(9, 500)];
    let once = apply_spacing(glyphs.clone(), 9, 500, Some(1000));
    let twice = apply_spacing(glyphs, 9, 500, Some(2000));
    let sum = |gs: &Vec<GlyphData>| -> i64 {
        gs.iter().filter(|g| g.codepoint == 9).map(|g| g.x_advance as i64).sum()
    };
    assert_eq!(sum(&once), 1000);
    assert_eq!(sum(&twice), 2000);
}

#[test]
fn fixed_shaper_empty_input_is_empty() {
    let s = FixedShaper::from_script(vec![glyph(1, 100)], 9, 500);
    assert_eq!(s.shape("", &[]).len(), 0);
}

#[test]
fn fixed_shaper_applies_spacing_through_trait() {
    let mut s = FixedShaper::from_script(vec![glyph(1, 100), glyph(9, 500)], 9, 500);
    let vars = vec![Variation { kind: VariationKind::Spacing, value_milli: 2000 }];
    let out = s.shape_text("ab", &vars);
    assert_eq!(out[0].x_advance, 100);
    assert_eq!(out[1].x_advance, 1000);
}

#[test]
fn line_variations_carries_both_controls() {
    let line = LineInput { start: 0, end: 4, stretch_milli: 53_000, spacing_milli: 1250 };
    let vars = line_variations(line, *b"MSHQ");
    assert_eq!(vars.len(), 2);
    assert!(matches!(vars[0].kind, VariationKind::Axis(t) if t == *b"MSHQ"));
    assert_eq!(vars[0].value_milli, 53_000);
    assert!(matches!(vars[1].kind, VariationKind::Spacing));
    assert_eq!(vars[1].value_milli, 1250);
    assert_eq!(find_spacing(&vars), Some(1250));
}
