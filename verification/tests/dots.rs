use qrwatermark::canvas::Canvas;
use qrwatermark::dots::dot_transform;

const FG: [u8; 3] = [1, 2, 3];
const BG: [u8; 3] = [9, 9, 9];

fn canvases_equal(a: &Canvas, b: &Canvas) -> bool {
    if a.width() != b.width() || a.height() != b.height() {
        return false;
    }
    for y in 0..a.height() {
        for x in 0..a.width() {
            if a.get(x, y) != b.get(x, y) {
                return false;
            }
        }
    }
    true
}

#[test]
fn dot_is_drawn_for_foreground_samples() {
    let mut canvas = Canvas::new_filled(12, 12, BG);
    canvas.put(0, 0, FG);
    dot_transform(&mut canvas, 6, FG, BG);
    // the sample at (0, 0) was foreground: a dot of radius five is drawn
    assert_eq!(canvas.get(0, 0), FG);
    assert_eq!(canvas.get(3, 0), FG);
    assert_eq!(canvas.get(5, 0), FG);
    assert_eq!(canvas.get(0, 5), FG);
    assert_eq!(canvas.get(3, 4), FG);
    // outside the disk everything is background
    assert_eq!(canvas.get(4, 4), BG);
    assert_eq!(canvas.get(6, 0), BG);
    assert_eq!(canvas.get(6, 6), BG);
    assert_eq!(canvas.get(11, 11), BG);
}

#[test]
fn non_foreground_samples_leave_background() {
    let mut canvas = Canvas::new_filled(12, 12, BG);
    // a color that is neither foreground nor background is not sampled as a dot
    canvas.put(6, 6, [100, 100, 100]);
    // foreground off the sample stride is ignored
    canvas.put(1, 1, FG);
    dot_transform(&mut canvas, 6, FG, BG);
    for y in 0..12 {
        for x in 0..12 {
            assert_eq!(canvas.get(x, y), BG);
        }
    }
}

#[test]
fn transform_discards_prior_detail() {
    // every non-sample pixel is redrawn from scratch: the output holds only
    // the two configured colors
    let mut canvas = Canvas::new_filled(18, 18, [77, 1, 5]);
    canvas.put(6, 6, FG);
    canvas.put(12, 0, FG);
    dot_transform(&mut canvas, 6, FG, BG);
    for y in 0..18 {
        for x in 0..18 {
            let p = canvas.get(x, y);
            assert!(p == FG || p == BG);
        }
    }
    assert_eq!(canvas.get(6, 6), FG);
    assert_eq!(canvas.get(12, 0), FG);
    assert_eq!(canvas.get(0, 0), BG);
}

#[test]
fn transform_is_idempotent_on_its_own_output() {
    let mut canvas = Canvas::new_filled(24, 24, BG);
    canvas.put(0, 0, FG);
    canvas.put(6, 12, FG);
    canvas.put(18, 18, FG);
    canvas.put(12, 6, FG);
    dot_transform(&mut canvas, 6, FG, BG);
    let mut twice = Canvas::new_filled(24, 24, BG);
    for y in 0..24 {
        for x in 0..24 {
            twice.put(x, y, canvas.get(x, y));
        }
    }
    dot_transform(&mut twice, 6, FG, BG);
    assert!(canvases_equal(&canvas, &twice));
}
