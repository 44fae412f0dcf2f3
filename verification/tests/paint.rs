use sol_shell::paint::{glyph, Canvas, MAX_DIMENSION};

#[test]
fn a_degenerate_canvas_is_refused_before_allocation() {
    assert!(Canvas::new(0, 8).is_none());
    assert!(Canvas::new(8, 0).is_none());
    assert!(Canvas::new(MAX_DIMENSION + 1, 8).is_none());
}

#[test]
fn a_cleared_canvas_holds_the_token_color_in_every_pixel() {
    let mut canvas = Canvas::new(4, 3).expect("allocate");
    canvas.clear([255, 0, 0, 255]);

    assert_eq!(canvas.pixel(0, 0), Some([255, 0, 0, 255]));
    assert_eq!(canvas.pixel(3, 2), Some([255, 0, 0, 255]));
    assert_eq!(canvas.pixel(4, 0), None);
}

#[test]
fn a_new_canvas_is_transparent_and_sized() {
    let canvas = Canvas::new(3, 2).unwrap();
    assert_eq!(canvas.width(), 3);
    assert_eq!(canvas.height(), 2);
    assert_eq!(canvas.pixel(2, 1), Some([0, 0, 0, 0]));
    assert_eq!(canvas.into_pixels().len(), 3 * 2 * 4);
}

#[test]
fn blending_follows_premultiplied_source_over() {
    let mut canvas = Canvas::new(2, 2).unwrap();
    canvas.clear([0, 0, 255, 255]);
    // Half-covered white over opaque blue.
    canvas.blend_pixel(1, 1, [128, 128, 128, 128]);
    assert_eq!(canvas.pixel(1, 1), Some([128, 128, 255, 255]));
    // Untouched neighbours keep their color.
    assert_eq!(canvas.pixel(0, 1), Some([0, 0, 255, 255]));
    // An opaque source replaces the destination.
    canvas.blend_pixel(0, 0, [10, 20, 30, 255]);
    assert_eq!(canvas.pixel(0, 0), Some([10, 20, 30, 255]));
    // A pixel outside the canvas is ignored.
    canvas.blend_pixel(5, 5, [10, 20, 30, 255]);
}

#[test]
fn the_face_folds_case_and_marks_missing_glyphs() {
    assert_eq!(glyph('a'), glyph('A'));
    assert_eq!(glyph(' '), [0; 7]);
    assert_eq!(glyph('0'), [0b01110, 0b10001, 0b10011, 0b10101, 0b11001, 0b10001, 0b01110]);
    let tofu = [0b11111, 0b10001, 0b10001, 0b10001, 0b10001, 0b10001, 0b11111];
    assert_eq!(glyph('字'), tofu);
    assert!(glyph('字').iter().any(|row| *row != 0));
    for character in (' '..='~').chain(['é', '字']) {
        assert!(glyph(character).iter().all(|row| *row < 32));
    }
}
