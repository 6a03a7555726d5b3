use qrwatermark::QrWatermark;
use qrwatermark::canvas::Canvas;
use qrwatermark::configs::image_config::{ImageConfigBuilder, ImagePixelType};
use qrwatermark::configs::logo_config::LogoConfigBuilder;
use qrwatermark::errors::RenderError;
use qrwatermark::traits::builder::Builder;

#[test]
fn short_text_renders_at_version_one() {
    // "hello" fits QR version 1 at medium correction: a 21-module grid,
    // so the default style (pixel size 10, margin 1) gives a 230-pixel canvas
    let qrw = QrWatermark::new("hello");
    let canvas = qrw.generate_image(None).unwrap();
    assert_eq!(canvas.width(), 230);
    assert_eq!(canvas.height(), 230);
    // the corners lie in the margin: background white
    assert_eq!(canvas.get(0, 0), [255, 255, 255]);
    assert_eq!(canvas.get(229, 229), [255, 255, 255]);
    // the top-left finder pattern corner module is dark; pixel (11, 11)
    // falls in module (0, 0)
    assert_eq!(canvas.get(11, 11), [0, 0, 0]);
}

#[test]
fn encoding_failure_reports_the_encoder_error() {
    let text = "x".repeat(5000);
    let qrw = QrWatermark::new(&text);
    assert!(matches!(
        qrw.generate_image(None),
        Err(RenderError::Encoding(_))
    ));
}

#[test]
fn zero_pixel_size_reports_a_config_error() {
    let config = ImageConfigBuilder::new().pixel_size(0).build();
    let qrw = QrWatermark::new("hello").image_config(config);
    assert!(matches!(qrw.generate_image(None), Err(RenderError::Config)));
}

#[test]
fn solid_logo_shows_at_the_canvas_center() {
    // a 10x10 solid logo is scaled up to the 50x50 bounding box and centered:
    // it covers columns and rows 90..140 of the 230-pixel canvas
    let logo = Canvas::new_filled(10, 10, [7, 8, 9]);
    let qrw = QrWatermark::new("hello");
    let canvas = qrw.generate_image(Some(&logo)).unwrap();
    assert_eq!(canvas.get(115, 115), [7, 8, 9]);
    assert_eq!(canvas.get(90, 90), [7, 8, 9]);
    assert_eq!(canvas.get(139, 139), [7, 8, 9]);
    // a pixel inside the scaled box but outside an unscaled 10x10 box:
    // shows the logo only because the thumbnail really scaled it
    assert_eq!(canvas.get(95, 115), [7, 8, 9]);
    // outside the box the grid shows through: (89, 89) is a margin-adjacent
    // grid pixel, so it is black or white, not the logo color
    let outside = canvas.get(89, 89);
    assert!(outside == [0, 0, 0] || outside == [255, 255, 255]);
}

#[test]
fn wide_logo_is_scaled_preserving_aspect_ratio() {
    // 100x60 source into a 50x50 box: the thumbnail is 50x30, centered at
    // offsets (90, 100)
    let logo = Canvas::new_filled(100, 60, [7, 8, 9]);
    let qrw = QrWatermark::new("hello");
    let canvas = qrw.generate_image(Some(&logo)).unwrap();
    assert_eq!(canvas.get(90, 100), [7, 8, 9]);
    assert_eq!(canvas.get(139, 129), [7, 8, 9]);
    // above the 30-pixel-tall box the grid shows through
    let above = canvas.get(115, 95);
    assert!(above == [0, 0, 0] || above == [255, 255, 255]);
}

#[test]
fn logo_box_follows_the_logo_config() {
    let logo = Canvas::new_filled(10, 10, [7, 8, 9]);
    let logo_config = LogoConfigBuilder::new().width(70).height(70).build();
    let qrw = QrWatermark::new("hello").logo_config(logo_config);
    let canvas = qrw.generate_image(Some(&logo)).unwrap();
    // the 70x70 box is centered at offset (80, 80)
    assert_eq!(canvas.get(80, 80), [7, 8, 9]);
    assert_eq!(canvas.get(149, 149), [7, 8, 9]);
    let outside = canvas.get(79, 79);
    assert!(outside == [0, 0, 0] || outside == [255, 255, 255]);
}

#[test]
fn background_image_fills_background_pixels() {
    let background = Canvas::new_filled(230, 230, [40, 50, 60]);
    let qrw = QrWatermark::new("hello");
    let canvas = qrw.render_image(None, Some(&background)).unwrap();
    // margin pixels were white: now the background image
    assert_eq!(canvas.get(0, 0), [40, 50, 60]);
    assert_eq!(canvas.get(229, 229), [40, 50, 60]);
    // dark modules stay
    assert_eq!(canvas.get(11, 11), [0, 0, 0]);
}

#[test]
fn undersized_background_image_is_a_geometry_error() {
    let background = Canvas::new_filled(10, 10, [40, 50, 60]);
    let qrw = QrWatermark::new("hello");
    assert!(matches!(
        qrw.render_image(None, Some(&background)),
        Err(RenderError::Geometry)
    ));
}

#[test]
fn dot_style_renders_only_the_two_colors() {
    let config = ImageConfigBuilder::new()
        .pixel_type(ImagePixelType::Dot)
        .build();
    let qrw = QrWatermark::new("hello").image_config(config);
    let canvas = qrw.render_image(None, None).unwrap();
    assert_eq!(canvas.width(), 230);
    // the pass is destructive: only the two configured colors remain
    let mut dark = 0usize;
    for y in 0..230 {
        for x in 0..230 {
            let p = canvas.get(x, y);
            assert!(p == [0, 0, 0] || p == [255, 255, 255]);
            if p == [0, 0, 0] {
                dark += 1;
            }
        }
    }
    // dots were drawn: the finder patterns guarantee dark samples
    assert!(dark > 0);
}

#[test]
fn square_style_render_matches_generate_image() {
    let qrw = QrWatermark::new("hello");
    let direct = qrw.generate_image(None).unwrap();
    let piped = qrw.render_image(None, None).unwrap();
    assert_eq!(direct.width(), piped.width());
    for y in 0..230 {
        for x in 0..230 {
            assert_eq!(direct.get(x, y), piped.get(x, y));
        }
    }
}

#[test]
fn console_text_draws_two_chars_per_module() {
    let qrw = QrWatermark::new("hello");
    let text = qrw.console_text().unwrap();
    let lines: Vec<&str> = text.lines().collect();
    assert_eq!(lines.len(), 21);
    for line in &lines {
        assert_eq!(line.chars().count(), 42);
    }
    // the first line starts at the top-left finder pattern: a dark module
    assert!(text.starts_with("██"));
}

#[test]
fn console_text_fails_for_unencodable_text() {
    let text = "x".repeat(5000);
    let qrw = QrWatermark::new(&text);
    assert!(matches!(qrw.console_text(), Err(RenderError::Encoding(_))));
}

#[test]
fn builder_style_methods_carry_their_settings() {
    let config = ImageConfigBuilder::new()
        .pixel_size(5)
        .margin_size(2)
        .build();
    let qrw = QrWatermark::new("hello").image_config(config);
    let canvas = qrw.generate_image(None).unwrap();
    assert_eq!(canvas.width(), (21 + 4) * 5);
}

#[test]
fn default_watermark_carries_the_sample_settings() {
    let qrw = QrWatermark::default();
    assert_eq!(qrw.text, "Hello this is QrWatermark");
    assert_eq!(qrw.logo_path.as_deref(), Some("imgs/rust_logo.png"));
    assert_eq!(qrw.image_config.pixel_size, 10);
    assert_eq!(qrw.logo_config.width, 50);
}

#[test]
fn logo_method_stores_the_path() {
    let qrw = QrWatermark::new("hello").logo("imgs/rust_logo.png");
    assert_eq!(qrw.logo_path.as_deref(), Some("imgs/rust_logo.png"));
    assert_eq!(qrw.text, "hello");
}

#[test]
fn error_descriptions_name_the_stage() {
    assert_eq!(
        RenderError::Config.describe(),
        "impossible geometry: pixel size is zero"
    );
    assert_eq!(
        RenderError::Geometry.describe(),
        "bitmap does not cover the canvas"
    );
}
