use vstd::prelude::*;

use vstd::arithmetic::div_mod::lemma_fundamental_div_mod;

use crate::canvas::Canvas;
use crate::canvas::lemma_row_major_index;
use crate::canvas::rgb_eq;

verus! {

broadcast use vstd::std_specs::vec::axiom_spec_len;

/// Radius, in pixels, of the filled dot drawn for one sampled module; a
/// fixed constant, independent of the pixel size.
pub const DOT_RADIUS: i32 = 5;

/// Largest canvas dimension and center coordinate the dot drawing accepts.
/// The drawing code handles segment endpoints in 32-bit floating point,
/// which carries integers exactly only up to two to the twenty-fourth; under
/// this bound every endpoint stays exact.
pub const MAX_DRAW_DIM: i32 = 0x800000;

/// How many samples a stride of `ps` pixels takes along an axis of `len`
/// pixels.
pub open spec fn stride_count(len: nat, ps: nat) -> int
    recommends
        ps >= 1,
{
    (len + ps - 1) / (ps as int)
}

/// The row-major index of the sample at stride coordinates `(tx, ty)`.
pub open spec fn sample_index(w: nat, ps: nat, tx: int, ty: int) -> int {
    (ty * ps) * w + tx * ps
}

/// The canvas pixel at stride coordinates `(tx, ty)`.
pub open spec fn sample_at(c: Canvas, ps: nat, tx: int, ty: int) -> [u8; 3] {
    c.pixel_at(tx * ps, ty * ps)
}

/// What `imageproc`'s filled-circle draw returns: the buffer with a filled
/// disk of `color` laid over it, clipped to the canvas.
pub uninterp spec fn circled(
    pixels: Seq<[u8; 3]>,
    w: nat,
    h: nat,
    cx: int,
    cy: int,
    radius: int,
    color: [u8; 3],
) -> Seq<[u8; 3]>;

/// Relies on `imageproc::drawing::draw_filled_circle_mut`: the midpoint
/// circle algorithm covers the disk with horizontal segments of `color`,
/// through `draw_line_segment_mut`, which writes only in-bounds pixels. Its
/// working coordinates keep `x <= y <= radius`, so every written pixel lies
/// within `radius` of the center on both axes; the first iteration's second
/// segment spans the whole center row of the disk, so an in-bounds center is
/// always written. The segment endpoints pass through 32-bit floats, exact
/// under the `MAX_DRAW_DIM` bounds.
#[verifier::external_body]
fn draw_filled_circle(canvas: &mut Canvas, cx: i32, cy: i32, radius: i32, color: [u8; 3])
    requires
        old(canvas).wf(),
        old(canvas).spec_width() <= MAX_DRAW_DIM,
        old(canvas).spec_height() <= MAX_DRAW_DIM,
        -MAX_DRAW_DIM <= cx <= MAX_DRAW_DIM,
        -MAX_DRAW_DIM <= cy <= MAX_DRAW_DIM,
        0 <= radius <= 16,
    ensures
        final(canvas).wf(),
        final(canvas).spec_width() == old(canvas).spec_width(),
        final(canvas).spec_height() == old(canvas).spec_height(),
        final(canvas).pixel_seq() == circled(
            old(canvas).pixel_seq(),
            old(canvas).spec_width() as nat,
            old(canvas).spec_height() as nat,
            cx as int,
            cy as int,
            radius as int,
            color,
        ),
        forall|j: int|
            0 <= j < old(canvas).pixel_seq().len() ==> final(canvas).pixel_seq()[j] == color
                || final(canvas).pixel_seq()[j] == old(canvas).pixel_seq()[j],
        forall|px: int, py: int|
            0 <= px < old(canvas).spec_width() && 0 <= py < old(canvas).spec_height() && (px < cx
                - radius || px > cx + radius || py < cy - radius || py > cy + radius)
                ==> final(canvas).pixel_at(px, py) == old(canvas).pixel_at(px, py),
        (0 <= cx < old(canvas).spec_width() && 0 <= cy < old(canvas).spec_height())
            ==> final(canvas).pixel_at(cx as int, cy as int) == color,
{
    let (w, h) = (canvas.width(), canvas.height());
    let mut img = image::RgbImage::from_fn(
        w as u32,
        h as u32,
        |x, y| image::Rgb(canvas.get(x as usize, y as usize)),
    );
    imageproc::drawing::draw_filled_circle_mut(&mut img, (cx, cy), radius, image::Rgb(color));
    for y in 0..h {
        for x in 0..w {
            canvas.put(x, y, img.get_pixel(x as u32, y as u32).0);
        }
    }
}

/// The canvas that the dot pass has built after `i` samples, in sampling
/// order (columns outer, rows inner): background-filled, with a dot drawn at
/// each earlier sample point whose source pixel is exactly the foreground
/// color.
pub open spec fn dot_partial(
    src: Seq<[u8; 3]>,
    w: nat,
    h: nat,
    ps: nat,
    fg: [u8; 3],
    bg: [u8; 3],
    i: nat,
) -> Seq<[u8; 3]>
    decreases i,
{
    if i == 0 {
        Seq::new((w * h) as nat, |j: int| bg)
    } else {
        let prev = dot_partial(src, w, h, ps, fg, bg, (i - 1) as nat);
        let ny = stride_count(h, ps);
        let sx = ((i - 1) as int) / ny;
        let sy = ((i - 1) as int) % ny;
        if src[sample_index(w, ps, sx, sy)] == fg {
            circled(prev, w, h, sx * ps, sy * ps, DOT_RADIUS as int, fg)
        } else {
            prev
        }
    }
}

/// The finished dot pass over the whole canvas.
pub open spec fn dot_pass(
    src: Seq<[u8; 3]>,
    w: nat,
    h: nat,
    ps: nat,
    fg: [u8; 3],
    bg: [u8; 3],
) -> Seq<[u8; 3]> {
    dot_partial(src, w, h, ps, fg, bg, (stride_count(w, ps) * stride_count(h, ps)) as nat)
}

/// A stride index is in range exactly when its sample coordinate is.
proof fn lemma_stride_in_range(len: int, ps: int, k: int)
    requires
        ps >= 1,
        len >= 0,
        k >= 0,
    ensures
        (k * ps < len) <==> (k < stride_count(len as nat, ps as nat)),
{
    let q = (len + ps - 1) / ps;
    let r = (len + ps - 1) % ps;
    lemma_fundamental_div_mod(len + ps - 1, ps);
    assert(k < q ==> k * ps < len) by (nonlinear_arith)
        requires
            len + ps - 1 == q * ps + r,
            0 <= r < ps,
            k >= 0,
    ;
    assert(k >= q ==> k * ps >= len) by (nonlinear_arith)
        requires
            len + ps - 1 == q * ps + r,
            0 <= r < ps,
            k >= 0,
            q >= 0,
    ;
}

/// Distinct stride indices put their sample coordinates at least one stride
/// apart.
proof fn lemma_stride_sep(a: int, b: int, ps: int)
    requires
        a != b,
        ps >= 1,
    ensures
        a * ps + ps <= b * ps || b * ps + ps <= a * ps,
{
    assert(a * ps + ps <= b * ps || b * ps + ps <= a * ps) by (nonlinear_arith)
        requires
            a != b,
            ps >= 1,
    ;
}

/// Two sources that agree, at every sample point, on whether the pixel is
/// exactly the foreground color drive the dot pass to the same output.
proof fn lemma_dot_partial_agrees(
    s1: Seq<[u8; 3]>,
    s2: Seq<[u8; 3]>,
    w: nat,
    h: nat,
    ps: nat,
    fg: [u8; 3],
    bg: [u8; 3],
    i: nat,
)
    requires
        ps >= 1,
        forall|tx: int, ty: int|
            0 <= tx < stride_count(w, ps) && 0 <= ty < stride_count(h, ps) ==> ((#[trigger] s1[
            sample_index(w, ps, tx, ty)] == fg) <==> (s2[sample_index(w, ps, tx, ty)] == fg)),
        i <= stride_count(w, ps) * stride_count(h, ps),
    ensures
        dot_partial(s1, w, h, ps, fg, bg, i) == dot_partial(s2, w, h, ps, fg, bg, i),
    decreases i,
{
    if i > 0 {
        lemma_dot_partial_agrees(s1, s2, w, h, ps, fg, bg, (i - 1) as nat);
        let nx = stride_count(w, ps);
        let ny = stride_count(h, ps);
        assert(ny >= 1) by {
            if ny <= 0 {
                assert(nx * ny <= 0) by (nonlinear_arith)
                    requires
                        ny <= 0,
                        nx >= 0,
                ;
            }
            assert(nx >= 0 && ny >= 0) by {
                lemma_fundamental_div_mod(w + ps - 1, ps as int);
                lemma_fundamental_div_mod(h + ps - 1, ps as int);
                assert(nx >= 0 && ny >= 0) by (nonlinear_arith)
                    requires
                        w + ps - 1 == nx * ps + ((w + ps - 1) as int % (ps as int)),
                        h + ps - 1 == ny * ps + ((h + ps - 1) as int % (ps as int)),
                        0 <= (w + ps - 1) as int % (ps as int) < ps,
                        0 <= (h + ps - 1) as int % (ps as int) < ps,
                        w + ps - 1 >= 0,
                        h + ps - 1 >= 0,
                        ps >= 1,
                ;
            }
        }
        let sx = ((i - 1) as int) / ny;
        let sy = ((i - 1) as int) % ny;
        lemma_fundamental_div_mod((i - 1) as int, ny);
        assert(0 <= sy < ny);
        assert(sx >= 0) by (nonlinear_arith)
            requires
                ny * sx + sy == (i - 1) as int,
                0 <= (i - 1) as int,
                sy < ny,
                ny >= 1,
        ;
        if sx >= nx {
            assert(ny * sx >= ny * nx) by (nonlinear_arith)
                requires
                    sx >= nx,
                    ny >= 1,
            ;
            assert(ny * nx == nx * ny) by (nonlinear_arith);
            assert(false);
        }
        assert((s1[sample_index(w, ps, sx, sy)] == fg) <==> (s2[sample_index(w, ps, sx, sy)]
            == fg));
    }
}

/// Resamples the canvas at stride `ps` along both axes and redraws it on a
/// fresh background-filled canvas: wherever the sampled pixel is exactly the
/// foreground color, a filled dot of `DOT_RADIUS` pixels is drawn there in
/// the foreground color.
///
/// The pass is destructive: its output holds only the two configured colors
/// (third clause). With a stride wider than the dot radius the sample points
/// of the output again show the foreground color exactly where the input's
/// samples did (fourth clause), so running the transform on its own output
/// reproduces that output unchanged (last clause) — the transform is
/// idempotent whenever the two colors differ.
pub fn dot_transform(image: &mut Canvas, ps: u32, fg: [u8; 3], bg: [u8; 3])
    requires
        old(image).wf(),
        ps >= 1,
        old(image).spec_width() <= MAX_DRAW_DIM,
        old(image).spec_height() <= MAX_DRAW_DIM,
    ensures
        final(image).wf(),
        final(image).spec_width() == old(image).spec_width(),
        final(image).spec_height() == old(image).spec_height(),
        final(image).pixel_seq() == dot_pass(
            old(image).pixel_seq(),
            old(image).spec_width() as nat,
            old(image).spec_height() as nat,
            ps as nat,
            fg,
            bg,
        ),
        forall|j: int|
            0 <= j < final(image).pixel_seq().len() ==> final(image).pixel_seq()[j] == fg
                || final(image).pixel_seq()[j] == bg,
        ps > DOT_RADIUS ==> forall|tx: int, ty: int|
            0 <= tx < stride_count(old(image).spec_width() as nat, ps as nat) && 0 <= ty
                < stride_count(old(image).spec_height() as nat, ps as nat)
                ==> #[trigger] sample_at(*final(image), ps as nat, tx, ty) == (if sample_at(
                *old(image),
                ps as nat,
                tx,
                ty,
            ) == fg {
                fg
            } else {
                bg
            }),
        (ps > DOT_RADIUS && fg != bg) ==> dot_pass(
            final(image).pixel_seq(),
            old(image).spec_width() as nat,
            old(image).spec_height() as nat,
            ps as nat,
            fg,
            bg,
        ) == final(image).pixel_seq(),
{
    let w = image.width();
    let h = image.height();
    proof {
        assert(image.pixels.len() <= usize::MAX);
    }
    let mut out = Canvas::new_filled(w, h, bg);
    let ghost src = image.pixel_seq();
    let ghost nx = stride_count(w as nat, ps as nat);
    let ghost ny = stride_count(h as nat, ps as nat);
    proof {
        lemma_stride_in_range(w as int, ps as int, 0);
        lemma_stride_in_range(h as int, ps as int, 0);
        assert(out.pixel_seq() =~= dot_partial(src, w as nat, h as nat, ps as nat, fg, bg, 0));
        assert(0 * ny == 0) by (nonlinear_arith);
        if ps > DOT_RADIUS {
            assert forall|tx: int, ty: int|
                0 <= tx < nx && 0 <= ty < ny implies #[trigger] sample_at(out, ps as nat, tx, ty)
                == bg by {
                lemma_stride_in_range(w as int, ps as int, tx);
                lemma_stride_in_range(h as int, ps as int, ty);
                lemma_row_major_index(w as int, h as int, tx * ps, ty * ps);
            }
        }
    }

    let mut x: u64 = 0;
    let ghost mut sx: int = 0;
    while x < w as u64
        invariant
            image.wf(),
            out.wf(),
            w == image.spec_width(),
            h == image.spec_height(),
            out.spec_width() == w,
            out.spec_height() == h,
            ps >= 1,
            w <= MAX_DRAW_DIM,
            h <= MAX_DRAW_DIM,
            src == image.pixel_seq(),
            nx == stride_count(w as nat, ps as nat),
            ny == stride_count(h as nat, ps as nat),
            x == sx * ps,
            0 <= sx,
            sx <= nx,
            out.pixel_seq() == dot_partial(src, w as nat, h as nat, ps as nat, fg, bg, (sx
                * ny) as nat),
            sx * ny >= 0,
            forall|j: int|
                0 <= j < out.pixel_seq().len() ==> out.pixel_seq()[j] == fg || out.pixel_seq()[j]
                    == bg,
            ps > DOT_RADIUS ==> forall|tx: int, ty: int|
                0 <= tx < nx && 0 <= ty < ny ==> #[trigger] sample_at(out, ps as nat, tx, ty) == (
                if tx < sx && sample_at(*image, ps as nat, tx, ty) == fg {
                    fg
                } else {
                    bg
                }),
        decreases nx - sx,
    {
        proof {
            lemma_stride_in_range(w as int, ps as int, sx);
        }
        let mut y: u64 = 0;
        let ghost mut sy: int = 0;
        while y < h as u64
            invariant
                image.wf(),
                out.wf(),
                w == image.spec_width(),
                h == image.spec_height(),
                out.spec_width() == w,
                out.spec_height() == h,
                ps >= 1,
                w <= MAX_DRAW_DIM,
                h <= MAX_DRAW_DIM,
                src == image.pixel_seq(),
                nx == stride_count(w as nat, ps as nat),
                ny == stride_count(h as nat, ps as nat),
                x == sx * ps,
                0 <= sx,
                sx < nx,
                x < w,
                y == sy * ps,
                0 <= sy,
                sy <= ny,
                sx * ny + sy >= 0,
                out.pixel_seq() == dot_partial(src, w as nat, h as nat, ps as nat, fg, bg, (sx * ny
                    + sy) as nat),
                forall|j: int|
                    0 <= j < out.pixel_seq().len() ==> out.pixel_seq()[j] == fg
                        || out.pixel_seq()[j] == bg,
                ps > DOT_RADIUS ==> forall|tx: int, ty: int|
                    0 <= tx < nx && 0 <= ty < ny ==> #[trigger] sample_at(out, ps as nat, tx, ty)
                        == (if (tx < sx || (tx == sx && ty < sy)) && sample_at(
                        *image,
                        ps as nat,
                        tx,
                        ty,
                    ) == fg {
                        fg
                    } else {
                        bg
                    }),
            decreases ny - sy,
        {
            proof {
                lemma_stride_in_range(h as int, ps as int, sy);
                lemma_row_major_index(ny, nx, sy, sx);
            }
            let sample = image.get(x as usize, y as usize);
            let ghost pre = out;
            let ghost i: int = sx * ny + sy;
            if rgb_eq(&sample, &fg) {
                draw_filled_circle(&mut out, x as i32, y as i32, DOT_RADIUS, fg);
            }
            proof {
                assert(out.pixel_seq() == dot_partial(
                    src,
                    w as nat,
                    h as nat,
                    ps as nat,
                    fg,
                    bg,
                    (i + 1) as nat,
                ));
                if ps > DOT_RADIUS {
                    assert forall|tx: int, ty: int|
                        0 <= tx < nx && 0 <= ty < ny implies #[trigger] sample_at(
                        out,
                        ps as nat,
                        tx,
                        ty,
                    ) == (if (tx < sx || (tx == sx && ty < sy + 1)) && sample_at(
                        *image,
                        ps as nat,
                        tx,
                        ty,
                    ) == fg {
                        fg
                    } else {
                        bg
                    }) by {
                        lemma_stride_in_range(w as int, ps as int, tx);
                        lemma_stride_in_range(h as int, ps as int, ty);
                        lemma_row_major_index(w as int, h as int, tx * ps, ty * ps);
                        assert(sample_at(pre, ps as nat, tx, ty) == (if (tx < sx || (tx == sx && ty
                            < sy)) && sample_at(*image, ps as nat, tx, ty) == fg {
                            fg
                        } else {
                            bg
                        }));
                        if tx != sx {
                            lemma_stride_sep(tx, sx, ps as int);
                        }
                        if ty != sy {
                            lemma_stride_sep(ty, sy, ps as int);
                        }
                    }
                }
            }
            y = y + ps as u64;
            proof {
                sy = sy + 1;
                assert(sy * ps == (sy - 1) * ps + ps) by (nonlinear_arith);
            }
        }
        proof {
            lemma_stride_in_range(h as int, ps as int, sy);
            assert(sy == ny);
            assert((sx + 1) * ny == sx * ny + ny) by (nonlinear_arith);
            assert((sx + 1) * ny >= 0) by (nonlinear_arith)
                requires
                    sx + 1 >= 0,
                    ny >= 0,
            ;
            if ps > DOT_RADIUS {
                assert forall|tx: int, ty: int|
                    0 <= tx < nx && 0 <= ty < ny implies #[trigger] sample_at(out, ps as nat, tx, ty)
                    == (if tx < sx + 1 && sample_at(*image, ps as nat, tx, ty) == fg {
                    fg
                } else {
                    bg
                }) by {}
            }
        }
        x = x + ps as u64;
        proof {
            sx = sx + 1;
            assert(sx * ps == (sx - 1) * ps + ps) by (nonlinear_arith);
        }
    }
    proof {
        lemma_stride_in_range(w as int, ps as int, sx);
        assert(sx == nx);
    }

    let ghost outseq = out.pixel_seq();
    proof {
        if ps > DOT_RADIUS && fg != bg {
            assert forall|tx: int, ty: int|
                0 <= tx < stride_count(w as nat, ps as nat) && 0 <= ty < stride_count(
                h as nat,
                ps as nat,
            ) implies ((#[trigger] outseq[sample_index(w as nat, ps as nat, tx, ty)] == fg) <==> (
            src[sample_index(w as nat, ps as nat, tx, ty)] == fg)) by {
                lemma_stride_in_range(w as int, ps as int, tx);
                lemma_stride_in_range(h as int, ps as int, ty);
                lemma_row_major_index(w as int, h as int, tx * ps, ty * ps);
                assert(sample_at(out, ps as nat, tx, ty) == (if sample_at(*image, ps as nat, tx, ty)
                    == fg {
                    fg
                } else {
                    bg
                }));
                assert(sample_at(out, ps as nat, tx, ty) == outseq[sample_index(
                    w as nat,
                    ps as nat,
                    tx,
                    ty,
                )]);
                assert(sample_at(*image, ps as nat, tx, ty) == src[sample_index(
                    w as nat,
                    ps as nat,
                    tx,
                    ty,
                )]);
            }
            lemma_dot_partial_agrees(
                outseq,
                src,
                w as nat,
                h as nat,
                ps as nat,
                fg,
                bg,
                (nx * ny) as nat,
            );
        }
    }
    *image = out;
}

} // verus!
