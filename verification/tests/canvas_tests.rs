use fractal_core::canvas::make_canvas;
use fractal_core::error::FractalError;
use fractal_core::viewport::Viewport;

#[test]
fn square_viewport_gets_square_canvas() {
    // rangeX=(-2, 1), rangeY=(-1.5, 1.5) in fixed-point halves of a unit:
    // centre (-1, 0), half-spans (3, 3).
    let v = Viewport::new(-1, 0, 3, 3).unwrap();
    let c = make_canvas(&v, 10).unwrap();
    assert_eq!(c.width, 10);
    assert_eq!(c.height, 10);
}

#[test]
fn wide_viewport_scales_width() {
    // Spans 350 x 260 in hundredths: the x axis is longer, so the width is
    // floor(1000 * 350 / 260) = 1346 and the height is exactly 1000.
    let v = Viewport::new(-75, 0, 175, 130).unwrap();
    let c = make_canvas(&v, 1000).unwrap();
    assert_eq!(c.width, 1346);
    assert_eq!(c.height, 1000);
}

#[test]
fn tall_viewport_scales_height() {
    let v = Viewport::new(0, 0, 130, 175).unwrap();
    let c = make_canvas(&v, 1000).unwrap();
    assert_eq!(c.width, 1000);
    assert_eq!(c.height, 1346);
}

#[test]
fn minimum_side_always_on_shorter_axis() {
    let v = Viewport::new(0, 0, 7, 2).unwrap();
    let c = make_canvas(&v, 3).unwrap();
    // floor(3 * 14 / 4) = 10 on the long axis, exactly 3 on the short one.
    assert_eq!(c.width, 10);
    assert_eq!(c.height, 3);
}

#[test]
fn degenerate_viewport_is_rejected() {
    let v = Viewport { center_x: 0, center_y: 0, half_x: 0, half_y: 3 };
    assert_eq!(make_canvas(&v, 10), Err(FractalError::InvalidViewport));
}
