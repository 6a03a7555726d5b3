use vstd::prelude::*;

pub mod canvas;
pub mod compose;
pub mod configs;
pub mod dots;
pub mod errors;
pub mod gradient;
pub mod grid;
pub mod raster;
pub mod traits;

use crate::canvas::Canvas;
use crate::compose::apply_logo;
use crate::compose::center_offset;
use crate::compose::scale_logo;
use crate::compose::substitute_background;
use crate::compose::thumbnail_spec;
use crate::configs::image_config::ImageConfig;
use crate::configs::image_config::ImageConfigBuilder;
use crate::configs::image_config::ImagePixelType;
use crate::configs::logo_config::LogoConfig;
use crate::configs::logo_config::LogoConfigBuilder;
use crate::dots::dot_pass;
use crate::dots::dot_transform;
use crate::errors::RenderError;
use crate::grid::EncodingError;
use crate::grid::ModuleGrid;
use crate::grid::encode_text_medium;
use crate::grid::module_at;
use crate::grid::qr_grid_of;
use crate::raster::canvas_side;
use crate::raster::rasterize;
use crate::raster::rendered_pixel;
use crate::traits::builder::Builder;

use vstd::arithmetic::div_mod::lemma_fundamental_div_mod;
use vstd::string::StringExecFns;

verus! {

/// Error-correction level requested from the QR encoder.
#[derive(PartialEq, Eq, Structural, Clone, Copy, Debug)]
pub enum EccLevel {
    Low,
    Medium,
    Quartile,
    High,
}

/// Settings for the QR encoding step.
pub struct QrCodeConfig {
    pub ecc: EccLevel,
}

impl Default for QrCodeConfig {
    fn default() -> (r: Self)
        ensures
            r.ecc == EccLevel::Quartile,
    {
        Self { ecc: EccLevel::Quartile }
    }
}

/// Renders a QR code for a text as a styled raster image, optionally with a
/// centered logo, a background image, and a dot pixel shape.
pub struct QrWatermark<'a> {
    /// QR code text
    pub text: &'a str,
    /// Path to a logo (watermark)
    pub logo_path: Option<String>,
    /// QR code config (generating)
    pub qr_code_config: QrCodeConfig,
    /// Whole generated image config
    pub image_config: ImageConfig,
    /// Logo image config
    pub logo_config: LogoConfig,
}

/// The canvas side is largest for the largest grid the QR encoder can
/// produce; under these bounds the whole pipeline stays within machine
/// limits for every encodable text.
pub open spec fn config_fits(cfg: ImageConfig) -> bool {
    &&& canvas_side(177, cfg.margin_size as int, cfg.pixel_size as int) <= crate::dots::MAX_DRAW_DIM
    &&& canvas_side(177, cfg.margin_size as int, cfg.pixel_size as int) * canvas_side(
        177,
        cfg.margin_size as int,
        cfg.pixel_size as int,
    ) <= usize::MAX
}

/// The canvas side grows with the grid.
proof fn lemma_side_monotonic(n: int, margin: int, ps: int)
    requires
        0 <= n <= 177,
        margin >= 0,
        ps >= 0,
    ensures
        0 <= canvas_side(n, margin, ps) <= canvas_side(177, margin, ps),
        canvas_side(n, margin, ps) * canvas_side(n, margin, ps) <= canvas_side(177, margin, ps)
            * canvas_side(177, margin, ps),
{
    assert(0 <= (n + 2 * margin) * ps <= (177 + 2 * margin) * ps && (n + 2 * margin) * ps * ((n + 2
        * margin) * ps) <= (177 + 2 * margin) * ps * ((177 + 2 * margin) * ps))
        by (nonlinear_arith)
        requires
            0 <= n <= 177,
            margin >= 0,
            ps >= 0,
    ;
}

/// The scaled logo that the compositor lays over the canvas: the thumbnail
/// of bitmap `l` bounded by the logo configuration's box.
pub open spec fn logo_thumb(lc: LogoConfig, l: Canvas) -> (nat, nat, Seq<[u8; 3]>) {
    thumbnail_spec(
        l.pixel_seq(),
        l.spec_width() as nat,
        l.spec_height() as nat,
        lc.width as nat,
        lc.height as nat,
    )
}

/// A decoded logo bitmap the pipeline accepts: well-formed, nonempty, and
/// small enough for the thumbnail scaling's 32-bit block sums.
pub open spec fn logo_fits_scaling(l: Canvas) -> bool {
    &&& l.wf()
    &&& 1 <= l.spec_width()
    &&& 1 <= l.spec_height()
    &&& l.spec_width() * l.spec_height() <= crate::compose::MAX_LOGO_AREA
}

/// The scaled logo (width, height, pixels) lies inside the configured
/// bounding box: each dimension is at least one and at most the box side,
/// or one where the box side is zero.
pub open spec fn thumb_in_box(lc: LogoConfig, t: (nat, nat, Seq<[u8; 3]>)) -> bool {
    &&& 1 <= t.0 <= (if lc.width >= 1 {
        lc.width as int
    } else {
        1int
    })
    &&& 1 <= t.1 <= (if lc.height >= 1 {
        lc.height as int
    } else {
        1int
    })
}

/// The color of canvas pixel `(x, y)` after rasterizing grid `g` and
/// centering the scaled logo (given as width, height and pixels) over it.
pub open spec fn generated_pixel(
    g: Seq<Seq<bool>>,
    cfg: ImageConfig,
    logo: Option<(nat, nat, Seq<[u8; 3]>)>,
    side: int,
    x: int,
    y: int,
) -> [u8; 3] {
    match logo {
        Some(l) => {
            let ox = center_offset(side, l.0 as int);
            let oy = center_offset(side, l.1 as int);
            if ox <= x < ox + l.0 && oy <= y < oy + l.1 {
                l.2[(y - oy) * (l.0 as int) + (x - ox)]
            } else {
                rendered_pixel(g, cfg, side, x, y)
            }
        },
        None => rendered_pixel(g, cfg, side, x, y),
    }
}

/// `c` is the canvas that `generate_image` owes for text `text`, image
/// configuration `cfg` and scaled logo `logo`.
pub open spec fn generated_canvas(
    text: Seq<char>,
    cfg: ImageConfig,
    logo: Option<(nat, nat, Seq<[u8; 3]>)>,
    c: Canvas,
) -> bool {
    let g = qr_grid_of(text)->0;
    let side = canvas_side(g.len() as int, cfg.margin_size as int, cfg.pixel_size as int);
    &&& qr_grid_of(text) is Some
    &&& 21 <= g.len() <= 177
    &&& c.wf()
    &&& c.spec_width() == side
    &&& c.spec_height() == side
    &&& forall|x: int, y: int|
        0 <= x < side && 0 <= y < side ==> c.pixel_at(x, y) == generated_pixel(
            g,
            cfg,
            logo,
            side,
            x,
            y,
        )
}

/// With a solid-color scaled logo at least two pixels wide and tall, the
/// canvas's geometric center pixel comes from the logo: it shows the logo's
/// color, not the grid-derived color underneath.
pub proof fn lemma_generated_center_shows_logo(
    g: Seq<Seq<bool>>,
    cfg: ImageConfig,
    t: (nat, nat, Seq<[u8; 3]>),
    side: int,
    color: [u8; 3],
)
    requires
        2 <= t.0 <= side,
        2 <= t.1 <= side,
        forall|j: int| 0 <= j < t.0 * t.1 ==> t.2[j] == color,
    ensures
        generated_pixel(g, cfg, Some(t), side, side / 2, side / 2) == color,
{
    crate::compose::lemma_center_covers(side, t.0 as int);
    crate::compose::lemma_center_covers(side, t.1 as int);
    let ox = center_offset(side, t.0 as int);
    let oy = center_offset(side, t.1 as int);
    crate::canvas::lemma_row_major_index(
        t.0 as int,
        t.1 as int,
        side / 2 - ox,
        side / 2 - oy,
    );
}

/// The color of canvas pixel `(x, y)` after the background-image pass:
/// pixels that show exactly the configured background color are replaced by
/// the background bitmap's pixel there.
pub open spec fn backed_pixel(
    g: Seq<Seq<bool>>,
    cfg: ImageConfig,
    logo: Option<(nat, nat, Seq<[u8; 3]>)>,
    background: Option<(nat, nat, Seq<[u8; 3]>)>,
    side: int,
    x: int,
    y: int,
) -> [u8; 3] {
    let p = generated_pixel(g, cfg, logo, side, x, y);
    match background {
        Some(b) => {
            if p == cfg.background_color {
                b.2[y * (b.0 as int) + x]
            } else {
                p
            }
        },
        None => p,
    }
}

/// The finished image as a row-major pixel sequence: rasterizing plus logo,
/// then the background substitution, then — for the dot pixel shape — the
/// dot transform.
pub open spec fn styled_seq(
    g: Seq<Seq<bool>>,
    cfg: ImageConfig,
    logo: Option<(nat, nat, Seq<[u8; 3]>)>,
    background: Option<(nat, nat, Seq<[u8; 3]>)>,
    side: int,
) -> Seq<[u8; 3]> {
    let base = Seq::new(
        (side * side) as nat,
        |j: int| backed_pixel(g, cfg, logo, background, side, j % side, j / side),
    );
    if cfg.pixel_type == ImagePixelType::Dot {
        dot_pass(base, side as nat, side as nat, cfg.pixel_size as nat, cfg.color, cfg.background_color)
    } else {
        base
    }
}

/// A flat row-major index decomposes into in-range coordinates.
proof fn lemma_flat_coords(side: int, j: int)
    requires
        side >= 1,
        0 <= j < side * side,
    ensures
        0 <= j % side < side,
        0 <= j / side < side,
        (j / side) * side + (j % side) == j,
{
    lemma_fundamental_div_mod(j, side);
    assert(0 <= j % side < side);
    let q = j / side;
    assert((q) * side + (j % side) == j) by (nonlinear_arith)
        requires
            j == side * q + j % side,
    ;
    if q >= side {
        assert(side * q >= side * side) by (nonlinear_arith)
            requires
                q >= side,
                side >= 1,
        ;
        assert(false);
    }
    if q < 0 {
        assert(side * q <= -side) by (nonlinear_arith)
            requires
                q <= -1,
                side >= 1,
        ;
        assert(false);
    }
}

impl<'a> QrWatermark<'a> {
    /// Creates new QrWatermark
    pub fn new(text: &'a str) -> (r: Self)
        ensures
            r.text@ == text@,
            r.logo_path is None,
            r.qr_code_config.ecc == EccLevel::Quartile,
            r.image_config.pixel_size == 10,
            r.image_config.pixel_type == ImagePixelType::Square,
            r.image_config.margin_size == 1,
            r.image_config.color == [0u8, 0u8, 0u8],
            r.image_config.color_gradient is None,
            r.image_config.background_color == [255u8, 255u8, 255u8],
            r.image_config.background_image_path is None,
            !r.image_config.is_auto_gradient_enabled,
            !r.image_config.has_random_pixel_color,
            r.logo_config.width == 50,
            r.logo_config.height == 50,
    {
        Self {
            text,
            logo_path: None,
            qr_code_config: QrCodeConfig::default(),
            image_config: ImageConfigBuilder::new().build(),
            logo_config: LogoConfigBuilder::new().build(),
        }
    }

    /// The module grid that the QR encoder produces for this text.
    fn generate_qr_code(&self) -> (r: Result<ModuleGrid, EncodingError>)
        ensures
            match r {
                Ok(g) => g.wf() && 21 <= g@.len() <= 177 && qr_grid_of(self.text@) == Some(g@),
                Err(_) => qr_grid_of(self.text@) is None,
            },
    {
        encode_text_medium(self.text)
    }

    /// Sets the logo to center over the QR code.
    pub fn logo(self, logo_path: &'a str) -> (r: Self)
        ensures
            r.logo_path matches Some(p) && p@ == logo_path@,
            r.text == self.text,
            r.qr_code_config == self.qr_code_config,
            r.image_config == self.image_config,
            r.logo_config == self.logo_config,
    {
        Self { logo_path: Some(logo_path.to_owned()), ..self }
    }

    /// Replaces the image configuration.
    pub fn image_config(self, config: ImageConfig) -> (r: Self)
        ensures
            r == (QrWatermark { image_config: config, ..self }),
    {
        Self { image_config: config, ..self }
    }

    /// Replaces the logo configuration.
    pub fn logo_config(self, config: LogoConfig) -> (r: Self)
        ensures
            r == (QrWatermark { logo_config: config, ..self }),
    {
        Self { logo_config: config, ..self }
    }

    /// Rasterizes the module grid for this text and centers the scaled logo
    /// bitmap over it, when one is supplied; the scaled logo lies inside the
    /// configured bounding box. Succeeds exactly when the text is encodable,
    /// the pixel size is positive, and the scaled logo fits on the canvas.
    pub fn generate_image(&self, logo: Option<&Canvas>) -> (r: Result<Canvas, RenderError>)
        requires
            config_fits(self.image_config),
            match logo {
                Some(l) => logo_fits_scaling(*l),
                None => true,
            },
        ensures
            ({
                let g = qr_grid_of(self.text@)->0;
                let side = canvas_side(
                    g.len() as int,
                    self.image_config.margin_size as int,
                    self.image_config.pixel_size as int,
                );
                let lt = match logo {
                    Some(l) => Some(logo_thumb(self.logo_config, *l)),
                    None => None,
                };
                let fits = match lt {
                    Some(t) => t.0 <= side && t.1 <= side,
                    None => true,
                };
                &&& (r is Ok <==> qr_grid_of(self.text@) is Some
                    && self.image_config.pixel_size >= 1 && fits)
                &&& match r {
                    Ok(c) => generated_canvas(self.text@, self.image_config, lt, c) && (match lt {
                        Some(t) => thumb_in_box(self.logo_config, t),
                        None => true,
                    }),
                    Err(e) => {
                        &&& (e is Encoding ==> qr_grid_of(self.text@) is None)
                        &&& (e is Config ==> qr_grid_of(self.text@) is Some
                            && self.image_config.pixel_size == 0)
                        &&& (e is Geometry ==> qr_grid_of(self.text@) is Some
                            && self.image_config.pixel_size >= 1 && !fits)
                        &&& (e is Encoding || e is Config || e is Geometry)
                    },
                }
            }),
    {
        let grid = match self.generate_qr_code() {
            Ok(g) => g,
            Err(e) => {
                return Err(RenderError::Encoding(e));
            },
        };
        proof {
            lemma_side_monotonic(
                grid@.len() as int,
                self.image_config.margin_size as int,
                self.image_config.pixel_size as int,
            );
        }
        let mut canvas = match rasterize(&grid, &self.image_config) {
            Ok(c) => c,
            Err(e) => {
                return Err(e);
            },
        };
        if let Some(l) = logo {
            let thumb = scale_logo(l, self.logo_config.width, self.logo_config.height);
            if thumb.width() > canvas.width() || thumb.height() > canvas.height() {
                return Err(RenderError::Geometry);
            }
            let ghost base = canvas;
            apply_logo(&mut canvas, &thumb);
            proof {
                let g = qr_grid_of(self.text@)->0;
                let side = canvas.spec_width();
                let t = logo_thumb(self.logo_config, *l);
                assert(thumb_in_box(self.logo_config, t));
                assert forall|x: int, y: int|
                    0 <= x < side && 0 <= y < side implies canvas.pixel_at(x, y)
                    == generated_pixel(g, self.image_config, Some(t), side, x, y) by {
                    assert(canvas.pixel_at(x, y) == crate::compose::overlay_pixel(
                        base,
                        thumb,
                        x,
                        y,
                    ));
                }
            }
        }
        Ok(canvas)
    }

    /// Replaces each canvas pixel that shows exactly the configured
    /// background color with the background bitmap's pixel at the same
    /// coordinate. Fails exactly when the bitmap does not cover the canvas.
    pub fn apply_background_image(&self, image: Canvas, background: &Canvas) -> (r: Result<
        Canvas,
        RenderError,
    >)
        requires
            image.wf(),
            background.wf(),
        ensures
            match r {
                Ok(out) => {
                    &&& background.spec_width() >= image.spec_width()
                    &&& background.spec_height() >= image.spec_height()
                    &&& out.wf()
                    &&& out.spec_width() == image.spec_width()
                    &&& out.spec_height() == image.spec_height()
                    &&& forall|x: int, y: int|
                        0 <= x < image.spec_width() && 0 <= y < image.spec_height()
                            ==> #[trigger] out.pixel_at(x, y) == (if image.pixel_at(x, y)
                            == self.image_config.background_color {
                            background.pixel_at(x, y)
                        } else {
                            image.pixel_at(x, y)
                        })
                },
                Err(e) => {
                    &&& e == RenderError::Geometry
                    &&& (background.spec_width() < image.spec_width() || background.spec_height()
                        < image.spec_height())
                },
            },
    {
        substitute_background(&image, background, self.image_config.background_color)
    }

    /// Redraws the canvas in the dot pixel shape: a fresh background-filled
    /// canvas on which every module sample that shows exactly the foreground
    /// color becomes a filled dot. The result holds only the two configured
    /// colors, and — whenever they differ and the pixel size exceeds the dot
    /// radius — applying the pass to its own output reproduces that output.
    pub fn apply_dot_pixels(&self, image: &mut Canvas)
        requires
            old(image).wf(),
            self.image_config.pixel_size >= 1,
            old(image).spec_width() <= crate::dots::MAX_DRAW_DIM,
            old(image).spec_height() <= crate::dots::MAX_DRAW_DIM,
        ensures
            final(image).wf(),
            final(image).spec_width() == old(image).spec_width(),
            final(image).spec_height() == old(image).spec_height(),
            final(image).pixel_seq() == dot_pass(
                old(image).pixel_seq(),
                old(image).spec_width() as nat,
                old(image).spec_height() as nat,
                self.image_config.pixel_size as nat,
                self.image_config.color,
                self.image_config.background_color,
            ),
            forall|j: int|
                0 <= j < final(image).pixel_seq().len() ==> final(image).pixel_seq()[j]
                    == self.image_config.color || final(image).pixel_seq()[j]
                    == self.image_config.background_color,
            (self.image_config.pixel_size > crate::dots::DOT_RADIUS && self.image_config.color
                != self.image_config.background_color) ==> dot_pass(
                final(image).pixel_seq(),
                old(image).spec_width() as nat,
                old(image).spec_height() as nat,
                self.image_config.pixel_size as nat,
                self.image_config.color,
                self.image_config.background_color,
            ) == final(image).pixel_seq(),
    {
        dot_transform(
            image,
            self.image_config.pixel_size,
            self.image_config.color,
            self.image_config.background_color,
        )
    }

    /// Runs the whole pipeline on decoded bitmaps: rasterize the grid, lay
    /// the scaled logo over it, substitute the background image, and — for
    /// the dot pixel shape — apply the dot transform. The caller passes the
    /// decoded background bitmap exactly when a background image is
    /// configured.
    pub fn render_image(&self, logo: Option<&Canvas>, background: Option<&Canvas>) -> (r: Result<
        Canvas,
        RenderError,
    >)
        requires
            config_fits(self.image_config),
            match logo {
                Some(l) => logo_fits_scaling(*l),
                None => true,
            },
            match background {
                Some(b) => b.wf(),
                None => true,
            },
        ensures
            ({
                let g = qr_grid_of(self.text@)->0;
                let side = canvas_side(
                    g.len() as int,
                    self.image_config.margin_size as int,
                    self.image_config.pixel_size as int,
                );
                let lt = match logo {
                    Some(l) => Some(logo_thumb(self.logo_config, *l)),
                    None => None,
                };
                let bt = match background {
                    Some(b) => Some(
                        (b.spec_width() as nat, b.spec_height() as nat, b.pixel_seq()),
                    ),
                    None => None,
                };
                let fits = match lt {
                    Some(t) => t.0 <= side && t.1 <= side,
                    None => true,
                };
                let covers = match background {
                    Some(b) => b.spec_width() >= side && b.spec_height() >= side,
                    None => true,
                };
                &&& (r is Ok <==> qr_grid_of(self.text@) is Some
                    && self.image_config.pixel_size >= 1 && fits && covers)
                &&& match r {
                    Ok(c) => {
                        &&& c.wf()
                        &&& c.spec_width() == side
                        &&& c.spec_height() == side
                        &&& c.pixel_seq() == styled_seq(g, self.image_config, lt, bt, side)
                        &&& match lt {
                            Some(t) => thumb_in_box(self.logo_config, t),
                            None => true,
                        }
                    },
                    Err(e) => {
                        &&& (e is Encoding ==> qr_grid_of(self.text@) is None)
                        &&& (e is Config ==> qr_grid_of(self.text@) is Some
                            && self.image_config.pixel_size == 0)
                        &&& (e is Geometry ==> qr_grid_of(self.text@) is Some
                            && self.image_config.pixel_size >= 1 && !(fits && covers))
                        &&& (e is Encoding || e is Config || e is Geometry)
                    },
                }
            }),
    {
        let mut image = match self.generate_image(logo) {
            Ok(c) => c,
            Err(e) => {
                return Err(e);
            },
        };
        let ghost g = qr_grid_of(self.text@)->0;
        let ghost side = image.spec_width();
        let ghost lt = match logo {
            Some(l) => Some(logo_thumb(self.logo_config, *l)),
            None => None,
        };
        let ghost bt = match background {
            Some(b) => Some((b.spec_width() as nat, b.spec_height() as nat, b.pixel_seq())),
            None => None,
        };
        if let Some(b) = background {
            image = match self.apply_background_image(image, b) {
                Ok(c) => c,
                Err(e) => {
                    return Err(e);
                },
            };
        }
        proof {
            lemma_side_monotonic(
                g.len() as int,
                self.image_config.margin_size as int,
                self.image_config.pixel_size as int,
            );
            let base = Seq::new(
                (side * side) as nat,
                |j: int| backed_pixel(g, self.image_config, lt, bt, side, j % side, j / side),
            );
            assert(image.pixel_seq() =~= base) by {
                assert(image.pixel_seq().len() == side * side);
                assert forall|j: int| 0 <= j < side * side implies image.pixel_seq()[j] == base[j]
                    by {
                    lemma_flat_coords(side, j);
                    let x = j % side;
                    let y = j / side;
                    assert(image.pixel_at(x, y) == backed_pixel(
                        g,
                        self.image_config,
                        lt,
                        bt,
                        side,
                        x,
                        y,
                    ));
                }
            }
        }
        if self.image_config.pixel_type == ImagePixelType::Dot {
            self.apply_dot_pixels(&mut image);
        }
        Ok(image)
    }

    /// One text line of the console rendering of grid `g`'s line `i`: two
    /// characters per module, dark modules as a full block.
    pub open spec fn console_line(g: Seq<Seq<bool>>, i: int, k: nat) -> Seq<char>
        decreases k,
    {
        if k == 0 {
            Seq::empty()
        } else {
            Self::console_line(g, i, (k - 1) as nat) + Self::console_cell(
                module_at(g, i, (k - 1) as int),
            )
        }
    }

    /// The two characters that one module prints as.
    pub open spec fn console_cell(dark: bool) -> Seq<char> {
        if dark {
            "██"@
        } else {
            "  "@
        }
    }

    /// The first `k` lines of the console rendering, each ended by a
    /// newline.
    pub open spec fn console_lines(g: Seq<Seq<bool>>, k: nat) -> Seq<char>
        decreases k,
    {
        if k == 0 {
            Seq::empty()
        } else {
            Self::console_lines(g, (k - 1) as nat) + Self::console_line(g, (k - 1) as int, g.len())
                + "\n"@
        }
    }

    /// The text-art form of this watermark's QR code, as `print_into_console`
    /// writes it: one line per grid line, two characters per module.
    pub fn console_text(&self) -> (r: Result<String, RenderError>)
        ensures
            (r is Ok <==> qr_grid_of(self.text@) is Some),
            match r {
                Ok(s) => s@ == Self::console_lines(
                    qr_grid_of(self.text@)->0,
                    qr_grid_of(self.text@)->0.len(),
                ),
                Err(e) => e is Encoding,
            },
    {
        let grid = match self.generate_qr_code() {
            Ok(g) => g,
            Err(e) => {
                return Err(RenderError::Encoding(e));
            },
        };
        let n = grid.size();
        let mut s = String::new();
        let mut i: usize = 0;
        while i < n
            invariant
                grid.wf(),
                n == grid@.len(),
                i <= n,
                s@ == Self::console_lines(grid@, i as nat),
            decreases n - i,
        {
            let mut j: usize = 0;
            while j < n
                invariant
                    grid.wf(),
                    n == grid@.len(),
                    i < n,
                    j <= n,
                    s@ == Self::console_lines(grid@, i as nat) + Self::console_line(
                        grid@,
                        i as int,
                        j as nat,
                    ),
                decreases n - j,
            {
                if grid.get(i, j) {
                    s.append("██");
                } else {
                    s.append("  ");
                }
                proof {
                    assert(s@ =~= Self::console_lines(grid@, i as nat) + Self::console_line(
                        grid@,
                        i as int,
                        (j + 1) as nat,
                    ));
                }
                j = j + 1;
            }
            s.append("\n");
            proof {
                assert(s@ =~= Self::console_lines(grid@, (i + 1) as nat));
            }
            i = i + 1;
        }
        Ok(s)
    }
}

impl<'a> Default for QrWatermark<'a> {
    fn default() -> (r: Self)
        ensures
            r.text@ == "Hello this is QrWatermark"@,
            r.logo_path matches Some(p) && p@ == "imgs/rust_logo.png"@,
            r.qr_code_config.ecc == EccLevel::Quartile,
            r.image_config.pixel_size == 10,
            r.image_config.margin_size == 1,
            r.logo_config.width == 50,
            r.logo_config.height == 50,
    {
        Self {
            text: "Hello this is QrWatermark",
            logo_path: Some("imgs/rust_logo.png".to_owned()),
            qr_code_config: QrCodeConfig::default(),
            image_config: ImageConfigBuilder::new().build(),
            logo_config: LogoConfigBuilder::new().build(),
        }
    }
}

} // verus!
