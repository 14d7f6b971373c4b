use mashq::pixel::{blend, src_over};

#[test]
fn blend_full_coverage_paints_foreground() {
    let fg = (10, 20, 30, 255);
    let bg = (1, 2, 3, 4);
    assert_eq!(blend(fg, bg, 255), fg);
}

#[test]
fn blend_zero_coverage_keeps_background() {
    let fg = (10, 20, 30, 255);
    let bg = (1, 2, 3, 4);
    assert_eq!(blend(fg, bg, 0), bg);
}

#[test]
fn blend_half_coverage_exact_value() {
    let fg = (255, 0, 0, 255);
    let bg = (0, 0, 0, 255);
    // (255*128 + 0*127) / 255 = 128, alpha (255*128 + 255*127) / 255 = 255
    assert_eq!(blend(fg, bg, 128), (128, 0, 0, 255));
}

#[test]
fn src_over_opaque_replaces_destination() {
    let src = (7, 8, 9, 255);
    let dst = (100, 110, 120, 255);
    assert_eq!(src_over(src, dst), src);
}

#[test]
fn src_over_transparent_keeps_destination() {
    let src = (7, 8, 9, 0);
    let dst = (100, 110, 120, 200);
    assert_eq!(src_over(src, dst), dst);
}

#[test]
fn src_over_partial_alpha_exact_value() {
    let src = (100, 50, 0, 128);
    let dst = (200, 200, 200, 255);
    // channel: (c*128 + d*127) / 255; alpha: 128 + 255*127/255 = 255
    let r = ((100u32 * 128 + 200 * 127) / 255) as u8;
    let g = ((50u32 * 128 + 200 * 127) / 255) as u8;
    let b = ((0u32 * 128 + 200 * 127) / 255) as u8;
    assert_eq!(src_over(src, dst), (r, g, b, 255));
}
