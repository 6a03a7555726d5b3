use qrwatermark::canvas::Canvas;
use qrwatermark::compose::{apply_logo, substitute_background};
use qrwatermark::errors::RenderError;

fn solid(w: usize, h: usize, c: [u8; 3]) -> Canvas {
    Canvas::new_filled(w, h, c)
}

#[test]
fn logo_is_copied_centered() {
    let mut canvas = solid(10, 10, [0, 0, 0]);
    let logo = solid(4, 2, [9, 8, 7]);
    apply_logo(&mut canvas, &logo);
    // offsets: ((10 - 4) / 2, (10 - 2) / 2) = (3, 4)
    assert_eq!(canvas.get(3, 4), [9, 8, 7]);
    assert_eq!(canvas.get(6, 5), [9, 8, 7]);
    assert_eq!(canvas.get(2, 4), [0, 0, 0]);
    assert_eq!(canvas.get(7, 4), [0, 0, 0]);
    assert_eq!(canvas.get(3, 3), [0, 0, 0]);
    assert_eq!(canvas.get(3, 6), [0, 0, 0]);
    // the canvas center shows the logo, not the underlying color
    assert_eq!(canvas.get(5, 5), [9, 8, 7]);
}

#[test]
fn full_size_logo_covers_everything() {
    let mut canvas = solid(6, 6, [0, 0, 0]);
    let logo = solid(6, 6, [1, 1, 1]);
    apply_logo(&mut canvas, &logo);
    for y in 0..6 {
        for x in 0..6 {
            assert_eq!(canvas.get(x, y), [1, 1, 1]);
        }
    }
}

#[test]
fn background_replaces_exact_matches_only() {
    let mut image = solid(4, 4, [255, 255, 255]);
    image.put(1, 1, [0, 0, 0]);
    image.put(2, 3, [254, 255, 255]);
    let bg = solid(4, 4, [5, 6, 7]);
    let out = substitute_background(&image, &bg, [255, 255, 255]).unwrap();
    // exact background-colored pixels are substituted
    assert_eq!(out.get(0, 0), [5, 6, 7]);
    assert_eq!(out.get(3, 3), [5, 6, 7]);
    // other pixels pass through unchanged
    assert_eq!(out.get(1, 1), [0, 0, 0]);
    assert_eq!(out.get(2, 3), [254, 255, 255]);
    // the input image keeps its own pixels
    assert_eq!(image.get(0, 0), [255, 255, 255]);
}

#[test]
fn background_may_be_larger_than_the_canvas() {
    let image = solid(3, 3, [255, 255, 255]);
    let bg = solid(8, 9, [1, 2, 3]);
    let out = substitute_background(&image, &bg, [255, 255, 255]).unwrap();
    assert_eq!(out.width(), 3);
    assert_eq!(out.height(), 3);
    assert_eq!(out.get(2, 2), [1, 2, 3]);
}

#[test]
fn undersized_background_is_a_geometry_error() {
    let image = solid(4, 4, [255, 255, 255]);
    let too_narrow = solid(3, 4, [0, 0, 0]);
    let too_short = solid(4, 3, [0, 0, 0]);
    assert!(matches!(
        substitute_background(&image, &too_narrow, [255, 255, 255]),
        Err(RenderError::Geometry)
    ));
    assert!(matches!(
        substitute_background(&image, &too_short, [255, 255, 255]),
        Err(RenderError::Geometry)
    ));
}
