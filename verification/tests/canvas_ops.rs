use mashq::canvas::Canvas;

const BG: (u8, u8, u8, u8) = (19, 42, 74, 255);

#[test]
fn new_canvas_is_filled() {
    let c = Canvas::new(4, 3, BG);
    assert_eq!(c.width(), 4);
    assert_eq!(c.height(), 3);
    for y in 0..3 {
        for x in 0..4 {
            assert_eq!(c.get(x, y), BG);
        }
    }
}

#[test]
fn put_changes_one_pixel_only() {
    let mut c = Canvas::new(4, 3, BG);
    let red = (255, 0, 0, 255);
    c.put(2, 1, red);
    for y in 0..3 {
        for x in 0..4 {
            if (x, y) == (2, 1) {
                assert_eq!(c.get(x, y), red);
            } else {
                assert_eq!(c.get(x, y), BG);
            }
        }
    }
}

#[test]
fn into_bytes_is_row_major_rgba() {
    let mut c = Canvas::new(2, 2, BG);
    c.put(1, 0, (1, 2, 3, 4));
    let bytes = c.into_bytes();
    assert_eq!(bytes.len(), 16);
    // row 0: BG then the written pixel; row 1: BG, BG
    assert_eq!(&bytes[0..4], &[BG.0, BG.1, BG.2, BG.3]);
    assert_eq!(&bytes[4..8], &[1, 2, 3, 4]);
    assert_eq!(&bytes[8..12], &[BG.0, BG.1, BG.2, BG.3]);
    assert_eq!(&bytes[12..16], &[BG.0, BG.1, BG.2, BG.3]);
}
