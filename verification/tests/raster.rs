use qrwatermark::canvas::Canvas;
use qrwatermark::configs::image_config::ImageConfigBuilder;
use qrwatermark::errors::RenderError;
use qrwatermark::grid::ModuleGrid;
use qrwatermark::raster::rasterize;
use qrwatermark::traits::builder::Builder;

fn square_grid(rows: Vec<Vec<bool>>) -> ModuleGrid {
    ModuleGrid::from_rows(rows).expect("grid must be square")
}

fn empty_grid(n: usize) -> ModuleGrid {
    square_grid(vec![vec![false; n]; n])
}

#[test]
fn canvas_side_is_grid_plus_margins_times_pixel_size() {
    let grid = empty_grid(21);
    let config = ImageConfigBuilder::new().pixel_size(10).margin_size(1).build();
    let canvas = rasterize(&grid, &config).unwrap();
    assert_eq!(canvas.width(), 230);
    assert_eq!(canvas.height(), 230);

    let grid = empty_grid(5);
    let config = ImageConfigBuilder::new().pixel_size(3).margin_size(2).build();
    let canvas = rasterize(&grid, &config).unwrap();
    assert_eq!(canvas.width(), (5 + 2 * 2) * 3);
    assert_eq!(canvas.height(), 27);
}

#[test]
fn zero_pixel_size_is_a_config_error() {
    let grid = empty_grid(21);
    let config = ImageConfigBuilder::new().pixel_size(0).build();
    assert!(matches!(rasterize(&grid, &config), Err(RenderError::Config)));
}

#[test]
fn scenario_full_grid_render() {
    // A 21-module grid, ten pixels per module, one margin module: the canvas
    // is 230 by 230, the corners lie in the margin and show the background,
    // and the geometric center shows the center module's color.
    let mut rows = vec![vec![false; 21]; 21];
    rows[10][10] = true;
    let grid = square_grid(rows);
    let config = ImageConfigBuilder::new()
        .pixel_size(10)
        .margin_size(1)
        .color([0, 0, 0])
        .background_color([255, 255, 255])
        .build();
    let canvas = rasterize(&grid, &config).unwrap();
    assert_eq!(canvas.width(), 230);
    assert_eq!(canvas.height(), 230);
    assert_eq!(canvas.get(0, 0), [255, 255, 255]);
    assert_eq!(canvas.get(229, 0), [255, 255, 255]);
    assert_eq!(canvas.get(0, 229), [255, 255, 255]);
    assert_eq!(canvas.get(229, 229), [255, 255, 255]);
    // center pixel (115, 115) falls in module (10, 10), which is dark
    assert_eq!(canvas.get(115, 115), [0, 0, 0]);

    // with the center module light, the center pixel shows the background
    let grid = empty_grid(21);
    let canvas = rasterize(&grid, &config).unwrap();
    assert_eq!(canvas.get(115, 115), [255, 255, 255]);
}

#[test]
fn module_pixels_take_foreground_and_background() {
    // 2x2 grid, pixel size 2, no margin: the pixel block of a dark module is
    // the foreground color except for the leading edge rows and columns,
    // which count as background.
    let grid = square_grid(vec![vec![true, false], vec![false, true]]);
    let config = ImageConfigBuilder::new()
        .pixel_size(2)
        .margin_size(0)
        .color([10, 20, 30])
        .background_color([200, 200, 200])
        .build();
    let canvas = rasterize(&grid, &config).unwrap();
    assert_eq!(canvas.width(), 4);
    // x = 0 and y = 0 are the leading edge: background by the margin rule
    for i in 0..4 {
        assert_eq!(canvas.get(i, 0), [200, 200, 200]);
        assert_eq!(canvas.get(0, i), [200, 200, 200]);
    }
    // module (0, 0) is dark: its remaining pixels are foreground
    assert_eq!(canvas.get(1, 1), [10, 20, 30]);
    // module (1, 0) is light
    assert_eq!(canvas.get(2, 1), [200, 200, 200]);
    assert_eq!(canvas.get(3, 1), [200, 200, 200]);
    // module (1, 1) is dark
    assert_eq!(canvas.get(3, 3), [10, 20, 30]);
    assert_eq!(canvas.get(2, 2), [10, 20, 30]);
}

#[test]
fn explicit_gradient_hits_both_stops() {
    // 3x3 all-dark grid, two pixels per module, no margin: side 6. Canvas
    // row 1 interpolates at t = 1/5, the last row carries the end stop
    // exactly, and the leading-edge row 0 is background.
    let grid = square_grid(vec![vec![true; 3]; 3]);
    let config = ImageConfigBuilder::new()
        .pixel_size(2)
        .margin_size(0)
        .color_gradient(([200, 100, 50], [0, 0, 0]))
        .build();
    let canvas = rasterize(&grid, &config).unwrap();
    assert_eq!(canvas.get(1, 0), [255, 255, 255]);
    // round(start * 4 / 5): exact for all three channels
    assert_eq!(canvas.get(1, 1), [160, 80, 40]);
    // round(start / 5) rounds .5 up on all three channels
    assert_eq!(canvas.get(1, 4), [40, 20, 10]);
    // bottom row: the end stop, exactly
    assert_eq!(canvas.get(1, 5), [0, 0, 0]);
}

#[test]
fn gradient_interpolation_rounds_half_up() {
    // 4x4 grid at two pixels per module: side 8, divisor 7. Row 1:
    // round(255 * 6 / 7) = 219 and round(5 * 6 / 7) = 4; row 4:
    // round(255 * 3 / 7) = 109 and round(5 * 3 / 7) = 2.
    let grid = square_grid(vec![vec![true; 4]; 4]);
    let config = ImageConfigBuilder::new()
        .pixel_size(2)
        .margin_size(0)
        .color_gradient(([255, 5, 0], [0, 0, 0]))
        .build();
    let canvas = rasterize(&grid, &config).unwrap();
    assert_eq!(canvas.get(1, 1), [219, 4, 0]);
    assert_eq!(canvas.get(1, 4), [109, 2, 0]);
}

#[test]
fn auto_gradient_walks_per_module_row() {
    // 3x3 grid at two pixels per module: canvas rows 1, 2..3, 4..5 fall in
    // module rows 0, 1, 2; the color steps by (1, 2, 3) per module row
    let grid = square_grid(vec![vec![true; 3]; 3]);
    let config = ImageConfigBuilder::new()
        .pixel_size(2)
        .margin_size(0)
        .color([0, 0, 0])
        .is_auto_gradient_enabled()
        .build();
    let canvas = rasterize(&grid, &config).unwrap();
    assert_eq!(canvas.get(1, 1), [0, 0, 0]);
    assert_eq!(canvas.get(1, 2), [1, 2, 3]);
    assert_eq!(canvas.get(1, 3), [1, 2, 3]);
    assert_eq!(canvas.get(1, 4), [2, 4, 6]);
}

#[test]
fn auto_gradient_wraps_at_256() {
    let grid = square_grid(vec![vec![true; 3]; 3]);
    let config = ImageConfigBuilder::new()
        .pixel_size(2)
        .margin_size(0)
        .color([255, 255, 255])
        .is_auto_gradient_enabled()
        .build();
    let canvas = rasterize(&grid, &config).unwrap();
    assert_eq!(canvas.get(1, 1), [255, 255, 255]);
    assert_eq!(canvas.get(1, 2), [0, 1, 2]);
    assert_eq!(canvas.get(1, 4), [1, 3, 5]);
}

#[test]
fn auto_gradient_spans_the_margin() {
    // with a margin, the first module row starts after the margin strip and
    // the walk still advances one step per module row
    let grid = square_grid(vec![vec![true; 2]; 2]);
    let config = ImageConfigBuilder::new()
        .pixel_size(2)
        .margin_size(1)
        .color([10, 10, 10])
        .is_auto_gradient_enabled()
        .build();
    let canvas = rasterize(&grid, &config).unwrap();
    assert_eq!(canvas.width(), 8);
    // canvas row 3 is module row 0 (margin-relative 1), row 5 is module row 1
    assert_eq!(canvas.get(3, 3), [10, 10, 10]);
    assert_eq!(canvas.get(3, 5), [11, 12, 13]);
}

#[test]
fn one_pixel_modules_follow_the_edge_rule() {
    // with one pixel per module and no margin, margin-relative coordinate
    // zero counts as background, so the first grid row and column never show
    let grid = square_grid(vec![vec![true, true], vec![true, true]]);
    let config = ImageConfigBuilder::new()
        .pixel_size(1)
        .margin_size(0)
        .color([1, 1, 1])
        .background_color([200, 200, 200])
        .build();
    let canvas = rasterize(&grid, &config).unwrap();
    assert_eq!(canvas.get(0, 0), [200, 200, 200]);
    assert_eq!(canvas.get(1, 0), [200, 200, 200]);
    assert_eq!(canvas.get(0, 1), [200, 200, 200]);
    assert_eq!(canvas.get(1, 1), [1, 1, 1]);
}

#[test]
fn empty_grid_renders_margins_only() {
    let grid = square_grid(Vec::new());
    let config = ImageConfigBuilder::new().pixel_size(3).margin_size(1).build();
    let canvas = rasterize(&grid, &config).unwrap();
    assert_eq!(canvas.width(), 6);
    for y in 0..6 {
        for x in 0..6 {
            assert_eq!(canvas.get(x, y), [255, 255, 255]);
        }
    }
}

#[test]
fn canvas_put_and_get_roundtrip() {
    let mut canvas = Canvas::new_filled(4, 3, [7, 7, 7]);
    assert_eq!(canvas.width(), 4);
    assert_eq!(canvas.height(), 3);
    assert_eq!(canvas.get(3, 2), [7, 7, 7]);
    canvas.put(2, 1, [1, 2, 3]);
    assert_eq!(canvas.get(2, 1), [1, 2, 3]);
    assert_eq!(canvas.get(1, 2), [7, 7, 7]);
}

#[test]
fn grid_from_rows_rejects_ragged_matrices() {
    assert!(ModuleGrid::from_rows(vec![vec![true], vec![true, false]]).is_none());
    let grid = ModuleGrid::from_rows(vec![vec![true, false], vec![false, true]]).unwrap();
    assert_eq!(grid.size(), 2);
    assert!(grid.get(0, 0));
    assert!(!grid.get(1, 0));
    // out-of-range lookups are false
    assert!(!grid.get(2, 0));
    assert!(!grid.get(0, 7));
}
