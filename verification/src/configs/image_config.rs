use vstd::prelude::*;

use crate::traits::builder::Builder;

verus! {

/// Image pixel shape type
#[derive(PartialEq, Eq, Structural, Clone, Copy, Debug)]
pub enum ImagePixelType {
    Square,
    Dot,
}

/// Options that govern how the module grid is turned into an image.
pub struct ImageConfig {
    /// Side length, in canvas pixels, of the square drawn for one module.
    pub pixel_size: u32,
    /// Shape drawn for a set module.
    pub pixel_type: ImagePixelType,
    /// Width of the border, measured in modules.
    pub margin_size: u32,
    /// Foreground color of a set module.
    pub color: [u8; 3],
    /// Two-stop gradient (start, end) for the foreground, if any.
    pub color_gradient: Option<([u8; 3], [u8; 3])>,
    /// Color of margin pixels and unset modules.
    pub background_color: [u8; 3],
    /// Path of an image substituted for background-colored pixels, if any.
    pub background_image_path: Option<String>,
    /// Whether the foreground color walks a fixed per-channel step each
    /// module row (used only when no explicit gradient is set).
    pub is_auto_gradient_enabled: bool,
    /// Whether each pixel gets an independently chosen color (stored only;
    /// no rendering pass reads it).
    pub has_random_pixel_color: bool,
}

impl Default for ImageConfig {
    fn default() -> (r: Self)
        ensures
            r.pixel_size == 10,
            r.pixel_type == ImagePixelType::Square,
            r.margin_size == 1,
            r.color == [0u8, 0u8, 0u8],
            r.color_gradient is None,
            r.background_color == [255u8, 255u8, 255u8],
            r.background_image_path is None,
            !r.is_auto_gradient_enabled,
            !r.has_random_pixel_color,
    {
        Self {
            pixel_size: 10,
            pixel_type: ImagePixelType::Square,
            margin_size: 1,
            color: [0, 0, 0],
            color_gradient: None,
            background_color: [255, 255, 255],
            background_image_path: None,
            is_auto_gradient_enabled: false,
            has_random_pixel_color: false,
        }
    }
}

/// Collects the options of an `ImageConfig`; unset options fall back to the
/// defaults when `build` runs.
pub struct ImageConfigBuilder {
    pub pixel_size: Option<u32>,
    pub pixel_type: Option<ImagePixelType>,
    pub margin_size: Option<u32>,
    pub color: Option<[u8; 3]>,
    pub color_gradient: Option<([u8; 3], [u8; 3])>,
    pub background_color: Option<[u8; 3]>,
    pub background_image_path: Option<String>,
    pub is_auto_gradient_enabled: bool,
    pub has_random_pixel_color: bool,
}

impl Builder<ImageConfig> for ImageConfigBuilder {
    fn new() -> (r: Self)
        ensures
            r.pixel_size is None,
            r.pixel_type is None,
            r.margin_size is None,
            r.color is None,
            r.color_gradient is None,
            r.background_color is None,
            r.background_image_path is None,
            !r.is_auto_gradient_enabled,
            !r.has_random_pixel_color,
    {
        Self {
            pixel_size: None,
            pixel_type: None,
            margin_size: None,
            color: None,
            color_gradient: None,
            background_color: None,
            background_image_path: None,
            is_auto_gradient_enabled: false,
            has_random_pixel_color: false,
        }
    }

    fn build(self) -> (r: ImageConfig)
        ensures
            r.pixel_size == self.pixel_size.unwrap_or(10),
            r.pixel_type == self.pixel_type.unwrap_or(ImagePixelType::Square),
            r.margin_size == self.margin_size.unwrap_or(1),
            r.color == self.color.unwrap_or([0u8, 0u8, 0u8]),
            r.color_gradient == self.color_gradient,
            r.background_color == self.background_color.unwrap_or([255u8, 255u8, 255u8]),
            r.background_image_path == self.background_image_path,
            r.is_auto_gradient_enabled == self.is_auto_gradient_enabled,
            r.has_random_pixel_color == self.has_random_pixel_color,
    {
        let image_config_default = ImageConfig::default();

        ImageConfig {
            pixel_size: match self.pixel_size {
                Some(v) => v,
                None => image_config_default.pixel_size,
            },
            pixel_type: match self.pixel_type {
                Some(v) => v,
                None => image_config_default.pixel_type,
            },
            margin_size: match self.margin_size {
                Some(v) => v,
                None => image_config_default.margin_size,
            },
            color: match self.color {
                Some(v) => v,
                None => image_config_default.color,
            },
            color_gradient: self.color_gradient,
            background_color: match self.background_color {
                Some(v) => v,
                None => image_config_default.background_color,
            },
            background_image_path: self.background_image_path,
            is_auto_gradient_enabled: self.is_auto_gradient_enabled,
            has_random_pixel_color: self.has_random_pixel_color,
        }
    }
}

impl ImageConfigBuilder {
    /// Sets the default pixel size
    pub fn pixel_size(self, size: u32) -> (r: Self)
        ensures
            r == (ImageConfigBuilder { pixel_size: Some(size), ..self }),
    {
        ImageConfigBuilder { pixel_size: Some(size), ..self }
    }

    /// Sets the default pixel shape type
    pub fn pixel_type(self, pixel_type: ImagePixelType) -> (r: Self)
        ensures
            r == (ImageConfigBuilder { pixel_type: Some(pixel_type), ..self }),
    {
        ImageConfigBuilder { pixel_type: Some(pixel_type), ..self }
    }

    /// Sets the frame margin
    pub fn margin_size(self, size: u32) -> (r: Self)
        ensures
            r == (ImageConfigBuilder { margin_size: Some(size), ..self }),
    {
        ImageConfigBuilder { margin_size: Some(size), ..self }
    }

    /// Sets the color of the pixel using an RGB value
    pub fn color(self, rgb: [u8; 3]) -> (r: Self)
        ensures
            r == (ImageConfigBuilder { color: Some(rgb), ..self }),
    {
        ImageConfigBuilder { color: Some(rgb), ..self }
    }

    /// Sets the gradient start and end colors of the foreground pixels
    pub fn color_gradient(self, rgbs: ([u8; 3], [u8; 3])) -> (r: Self)
        ensures
            r == (ImageConfigBuilder { color_gradient: Some(rgbs), ..self }),
    {
        ImageConfigBuilder { color_gradient: Some(rgbs), ..self }
    }

    /// Sets the color of the opposite (background) pixel using an RGB value
    pub fn background_color(self, rgb: [u8; 3]) -> (r: Self)
        ensures
            r == (ImageConfigBuilder { background_color: Some(rgb), ..self }),
    {
        ImageConfigBuilder { background_color: Some(rgb), ..self }
    }

    /// Sets the background image
    /// This option excludes the background pixel color
    pub fn background_image(self, path: String) -> (r: Self)
        ensures
            r == (ImageConfigBuilder { background_image_path: Some(path), ..self }),
    {
        ImageConfigBuilder { background_image_path: Some(path), ..self }
    }

    /// Sets auto generated gradient color
    pub fn is_auto_gradient_enabled(self) -> (r: Self)
        ensures
            r == (ImageConfigBuilder { is_auto_gradient_enabled: true, ..self }),
    {
        ImageConfigBuilder { is_auto_gradient_enabled: true, ..self }
    }

    /// Sets auto random pixel color generation
    pub fn has_random_pixel_color(self) -> (r: Self)
        ensures
            r == (ImageConfigBuilder { has_random_pixel_color: true, ..self }),
    {
        ImageConfigBuilder { has_random_pixel_color: true, ..self }
    }
}

} // verus!
