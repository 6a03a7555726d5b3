use vstd::prelude::*;

use vstd::arithmetic::div_mod::lemma_fundamental_div_mod;

use crate::canvas::Canvas;
use crate::canvas::lemma_row_major_index;
use crate::canvas::lemma_row_major_injective;
use crate::errors::RenderError;

verus! {

broadcast use vstd::std_specs::vec::axiom_spec_len;

/// The horizontal offset that centers a box of width `lw` on a canvas of
/// width `cw` (truncating division, as the centering law prescribes).
pub open spec fn center_offset(c: int, l: int) -> int {
    (c - l) / 2
}

/// The color of pixel `(x, y)` after the logo has been copied, opaquely,
/// onto the center of `base`.
pub open spec fn overlay_pixel(base: Canvas, logo: Canvas, x: int, y: int) -> [u8; 3] {
    let ox = center_offset(base.spec_width(), logo.spec_width());
    let oy = center_offset(base.spec_height(), logo.spec_height());
    if ox <= x < ox + logo.spec_width() && oy <= y < oy + logo.spec_height() {
        logo.pixel_at(x - ox, y - oy)
    } else {
        base.pixel_at(x, y)
    }
}

/// The intermediate state of the copy: the first `cols` logo columns are
/// down in full, plus the first `rows` pixels of column `cols`.
spec fn overlay_done(base: Canvas, logo: Canvas, cols: int, rows: int, x: int, y: int) -> [u8; 3] {
    let ox = center_offset(base.spec_width(), logo.spec_width());
    let oy = center_offset(base.spec_height(), logo.spec_height());
    if oy <= y < oy + logo.spec_height() && (ox <= x < ox + cols || (x == ox + cols && y < oy
        + rows)) {
        logo.pixel_at(x - ox, y - oy)
    } else {
        base.pixel_at(x, y)
    }
}

/// The centering offset keeps the whole box inside the canvas.
proof fn lemma_center_offset_fits(c: int, l: int)
    requires
        0 <= l <= c,
    ensures
        0 <= center_offset(c, l),
        center_offset(c, l) + l <= c,
{
    lemma_fundamental_div_mod(c - l, 2);
}

/// Copies every pixel of `logo` onto the canvas at the centering offset
/// `((width - logo.width) / 2, (height - logo.height) / 2)`; every other
/// canvas pixel keeps its color.
pub fn apply_logo(canvas: &mut Canvas, logo: &Canvas)
    requires
        old(canvas).wf(),
        logo.wf(),
        logo.spec_width() <= old(canvas).spec_width(),
        logo.spec_height() <= old(canvas).spec_height(),
    ensures
        final(canvas).wf(),
        final(canvas).spec_width() == old(canvas).spec_width(),
        final(canvas).spec_height() == old(canvas).spec_height(),
        forall|x: int, y: int|
            0 <= x < old(canvas).spec_width() && 0 <= y < old(canvas).spec_height()
                ==> final(canvas).pixel_at(x, y) == overlay_pixel(*old(canvas), *logo, x, y),
{
    let ghost base = *old(canvas);
    let cw = canvas.width();
    let ch = canvas.height();
    let lw = logo.width();
    let lh = logo.height();
    proof {
        lemma_center_offset_fits(cw as int, lw as int);
        lemma_center_offset_fits(ch as int, lh as int);
    }
    let ox = (cw - lw) / 2;
    let oy = (ch - lh) / 2;

    let mut x: usize = 0;
    while x < lw
        invariant
            canvas.wf(),
            logo.wf(),
            canvas.spec_width() == base.spec_width(),
            canvas.spec_height() == base.spec_height(),
            cw == base.spec_width(),
            ch == base.spec_height(),
            lw == logo.spec_width(),
            lh == logo.spec_height(),
            lw <= cw,
            lh <= ch,
            ox == center_offset(cw as int, lw as int),
            oy == center_offset(ch as int, lh as int),
            0 <= ox,
            ox + lw <= cw,
            0 <= oy,
            oy + lh <= ch,
            x <= lw,
            forall|px: int, py: int|
                0 <= px < cw && 0 <= py < ch ==> #[trigger] canvas.pixel_at(px, py)
                    == overlay_done(base, *logo, x as int, 0, px, py),
        decreases lw - x,
    {
        let mut y: usize = 0;
        while y < lh
            invariant
                canvas.wf(),
                logo.wf(),
                canvas.spec_width() == base.spec_width(),
                canvas.spec_height() == base.spec_height(),
                cw == base.spec_width(),
                ch == base.spec_height(),
                lw == logo.spec_width(),
                lh == logo.spec_height(),
                lw <= cw,
                lh <= ch,
                ox == center_offset(cw as int, lw as int),
                oy == center_offset(ch as int, lh as int),
                0 <= ox,
                ox + lw <= cw,
                0 <= oy,
                oy + lh <= ch,
                x < lw,
                y <= lh,
                forall|px: int, py: int|
                    0 <= px < cw && 0 <= py < ch ==> #[trigger] canvas.pixel_at(px, py)
                        == overlay_done(base, *logo, x as int, y as int, px, py),
            decreases lh - y,
        {
            let color = logo.get(x, y);
            let ghost pre = *canvas;
            canvas.put(ox + x, oy + y, color);
            proof {
                assert forall|px: int, py: int|
                    0 <= px < cw && 0 <= py < ch implies #[trigger] canvas.pixel_at(px, py)
                    == overlay_done(base, *logo, x as int, y + 1, px, py) by {
                    lemma_row_major_index(cw as int, ch as int, px, py);
                    lemma_row_major_index(cw as int, ch as int, ox + x, oy + y);
                    assert(pre.pixel_at(px, py) == overlay_done(
                        base,
                        *logo,
                        x as int,
                        y as int,
                        px,
                        py,
                    ));
                    if px != ox + x || py != oy + y {
                        lemma_row_major_injective(
                            cw as int,
                            ch as int,
                            px,
                            py,
                            ox + x,
                            oy + y,
                        );
                    }
                }
            }
            y = y + 1;
        }
        proof {
            assert forall|px: int, py: int|
                0 <= px < cw && 0 <= py < ch implies #[trigger] canvas.pixel_at(px, py)
                == overlay_done(base, *logo, x + 1, 0, px, py) by {}
        }
        x = x + 1;
    }
    proof {
        assert forall|px: int, py: int|
            0 <= px < cw && 0 <= py < ch implies #[trigger] canvas.pixel_at(px, py)
            == overlay_pixel(base, *logo, px, py) by {}
    }
}

/// With a logo at least two pixels wide and tall, the canvas's geometric
/// center pixel lies inside the centered logo box, so after the copy it
/// shows the logo's pixel there — for a solid-color logo, the logo's color,
/// not the grid-derived color underneath.
pub proof fn lemma_center_shows_logo(base: Canvas, logo: Canvas, color: [u8; 3])
    requires
        2 <= logo.spec_width() <= base.spec_width(),
        2 <= logo.spec_height() <= base.spec_height(),
        forall|x: int, y: int|
            0 <= x < logo.spec_width() && 0 <= y < logo.spec_height() ==> #[trigger] logo.pixel_at(
                x,
                y,
            ) == color,
    ensures
        overlay_pixel(base, logo, base.spec_width() / 2, base.spec_height() / 2) == color,
{
    lemma_center_covers(base.spec_width(), logo.spec_width());
    lemma_center_covers(base.spec_height(), logo.spec_height());
}

/// For a box at least two pixels long, the centered box spans the halfway
/// coordinate of the canvas.
pub(crate) proof fn lemma_center_covers(c: int, l: int)
    requires
        2 <= l <= c,
    ensures
        center_offset(c, l) <= c / 2 < center_offset(c, l) + l,
{
    lemma_fundamental_div_mod(c - l, 2);
    lemma_fundamental_div_mod(c, 2);
}

/// Largest source pixel count the thumbnail scaling accepts. Its sampling
/// sums a block of channel values into 32 bits; under this bound every block
/// sum stays at most 255 times two to the twenty-fourth, within range, and
/// every block pixel count fits 32 bits as well.
pub const MAX_LOGO_AREA: usize = 0x100_0000;

/// The bitmap that `image`'s aspect-preserving thumbnail scaling produces
/// for the given source pixels and bounding box: its width, its height, and
/// its row-major pixels.
pub uninterp spec fn thumbnail_spec(pixels: Seq<[u8; 3]>, w: nat, h: nat, bw: nat, bh: nat) -> (
    nat,
    nat,
    Seq<[u8; 3]>,
);

/// Relies on `image::DynamicImage::thumbnail`: it scales to the largest size
/// that preserves the aspect ratio and fits the `bw` by `bh` box
/// (`resize_dimensions` with `fill = false`), so each output dimension is at
/// least 1 and at most `max(box, 1)`; the result depends on the source
/// pixels and the box alone. The source area is bounded by `MAX_LOGO_AREA`
/// so the sampling's 32-bit block sums and block counts cannot overflow.
#[verifier::external_body]
pub(crate) fn scale_logo(logo: &Canvas, bw: u32, bh: u32) -> (r: Canvas)
    requires
        logo.wf(),
        1 <= logo.spec_width(),
        1 <= logo.spec_height(),
        logo.spec_width() * logo.spec_height() <= MAX_LOGO_AREA,
    ensures
        r.wf(),
        (r.spec_width() as nat, r.spec_height() as nat, r.pixel_seq()) == thumbnail_spec(
            logo.pixel_seq(),
            logo.spec_width() as nat,
            logo.spec_height() as nat,
            bw as nat,
            bh as nat,
        ),
        1 <= r.spec_width() <= (if bw >= 1 {
            bw as int
        } else {
            1
        }),
        1 <= r.spec_height() <= (if bh >= 1 {
            bh as int
        } else {
            1
        }),
{
    let src = image::RgbImage::from_fn(
        logo.width() as u32,
        logo.height() as u32,
        |x, y| image::Rgb(logo.get(x as usize, y as usize)),
    );
    let thumb = image::DynamicImage::ImageRgb8(src).thumbnail(bw, bh).to_rgb8();
    let (w, h) = (thumb.width() as usize, thumb.height() as usize);
    let mut out = Canvas::new_filled(w, h, [0, 0, 0]);
    for y in 0..h {
        for x in 0..w {
            out.put(x, y, thumb.get_pixel(x as u32, y as u32).0);
        }
    }
    out
}

/// Substitutes the background image: every pixel of `image` whose color is
/// exactly `key` is replaced by the bitmap's pixel at the same coordinate;
/// all other pixels pass through unchanged. Fails exactly when the bitmap
/// does not cover the canvas.
pub fn substitute_background(image: &Canvas, bg: &Canvas, key: [u8; 3]) -> (r: Result<
    Canvas,
    RenderError,
>)
    requires
        image.wf(),
        bg.wf(),
    ensures
        match r {
            Ok(out) => {
                &&& bg.spec_width() >= image.spec_width()
                &&& bg.spec_height() >= image.spec_height()
                &&& out.wf()
                &&& out.spec_width() == image.spec_width()
                &&& out.spec_height() == image.spec_height()
                &&& forall|x: int, y: int|
                    0 <= x < image.spec_width() && 0 <= y < image.spec_height()
                        ==> #[trigger] out.pixel_at(x, y) == (if image.pixel_at(x, y) == key {
                        bg.pixel_at(x, y)
                    } else {
                        image.pixel_at(x, y)
                    })
            },
            Err(e) => {
                &&& e == RenderError::Geometry
                &&& (bg.spec_width() < image.spec_width() || bg.spec_height()
                    < image.spec_height())
            },
        },
{
    let w = image.width();
    let h = image.height();
    if bg.width() < w || bg.height() < h {
        return Err(RenderError::Geometry);
    }
    let mut pixels: Vec<[u8; 3]> = Vec::new();
    proof {
        assert(image.pixels.len() <= usize::MAX);
    }
    let mut y: usize = 0;
    while y < h
        invariant
            image.wf(),
            bg.wf(),
            w == image.spec_width(),
            h == image.spec_height(),
            bg.spec_width() >= w,
            bg.spec_height() >= h,
            w * h <= usize::MAX,
            y <= h,
            pixels@.len() == y * w,
            forall|xx: int, yy: int|
                0 <= xx < w && 0 <= yy < y ==> pixels@[yy * w + xx] == (if image.pixel_at(xx, yy)
                    == key {
                    bg.pixel_at(xx, yy)
                } else {
                    image.pixel_at(xx, yy)
                }),
        decreases h - y,
    {
        proof {
            assert(y * w + w <= w * h) by (nonlinear_arith)
                requires
                    0 <= y < h,
            ;
        }
        let mut x: usize = 0;
        while x < w
            invariant
                image.wf(),
                bg.wf(),
                w == image.spec_width(),
                h == image.spec_height(),
                bg.spec_width() >= w,
                bg.spec_height() >= h,
                w * h <= usize::MAX,
                y < h,
                x <= w,
                y * w + w <= w * h,
                pixels@.len() == y * w + x,
                forall|xx: int, yy: int|
                    0 <= xx < w && 0 <= yy < y ==> pixels@[yy * w + xx] == (if image.pixel_at(
                        xx,
                        yy,
                    ) == key {
                        bg.pixel_at(xx, yy)
                    } else {
                        image.pixel_at(xx, yy)
                    }),
                forall|xx: int|
                    0 <= xx < x ==> pixels@[y * w + xx] == (if image.pixel_at(xx, y as int)
                        == key {
                        bg.pixel_at(xx, y as int)
                    } else {
                        image.pixel_at(xx, y as int)
                    }),
            decreases w - x,
        {
            let src = image.get(x, y);
            let px: [u8; 3] = if crate::canvas::rgb_eq(&src, &key) {
                bg.get(x, y)
            } else {
                src
            };
            pixels.push(px);
            proof {
                assert forall|xx: int, yy: int|
                    0 <= xx < w && 0 <= yy < y implies pixels@[yy * w + xx] == (if image.pixel_at(
                    xx,
                    yy,
                ) == key {
                    bg.pixel_at(xx, yy)
                } else {
                    image.pixel_at(xx, yy)
                }) by {
                    crate::canvas::lemma_earlier_row_index(w as int, y as int, xx, yy);
                }
            }
            x = x + 1;
        }
        proof {
            assert((y + 1) * w == y * w + w) by (nonlinear_arith);
        }
        y = y + 1;
    }
    proof {
        assert(h * w == w * h) by (nonlinear_arith);
    }
    let out = Canvas { width: w, height: h, pixels };
    proof {
        assert(out.wf());
        assert(out.spec_width() == image.spec_width());
        assert(out.spec_height() == image.spec_height());
        assert forall|x: int, y: int|
            0 <= x < w && 0 <= y < h implies #[trigger] out.pixel_at(x, y) == (if image.pixel_at(
            x,
            y,
        ) == key {
            bg.pixel_at(x, y)
        } else {
            image.pixel_at(x, y)
        }) by {}
    }
    Ok(out)
}

} // verus!
