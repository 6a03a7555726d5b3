use vstd::prelude::*;

use crate::grid::EncodingError;

verus! {

/// A terminal failure of the rendering pipeline; the first one aborts the
/// remaining passes.
#[derive(PartialEq, Eq, Structural, Clone, Copy, Debug)]
pub enum RenderError {
    /// Impossible geometry: `pixel_size` is zero.
    Config,
    /// The upstream QR encoder rejected the text.
    Encoding(EncodingError),
    /// A supplied bitmap does not cover the canvas, or the logo does not fit
    /// inside it.
    Geometry,
}

impl RenderError {
    /// A short description of the failure, usable in reports.
    pub fn describe(&self) -> (r: &'static str)
        ensures
            (*self is Config) ==> r@ == "impossible geometry: pixel size is zero"@,
            (*self is Encoding) ==> r@ == "text too long for the QR encoder"@,
            (*self is Geometry) ==> r@ == "bitmap does not cover the canvas"@,
    {
        match self {
            RenderError::Config => "impossible geometry: pixel size is zero",
            RenderError::Encoding(_) => "text too long for the QR encoder",
            RenderError::Geometry => "bitmap does not cover the canvas",
        }
    }
}

} // verus!
