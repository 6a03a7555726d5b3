use vstd::prelude::*;

use vstd::arithmetic::div_mod::lemma_fundamental_div_mod;
use vstd::arithmetic::div_mod::lemma_fundamental_div_mod_converse;

use crate::canvas::Canvas;
use crate::canvas::lemma_earlier_row_index;
use crate::configs::image_config::ImageConfig;
use crate::errors::RenderError;
use crate::gradient::auto_color;
use crate::gradient::auto_step_color;
use crate::gradient::gradient_color;
use crate::gradient::lerp_color;
use crate::grid::ModuleGrid;
use crate::grid::module_at;

verus! {

/// The side length, in pixels, of the square canvas rendered for an `n` by
/// `n` grid with `margin` border modules of `ps` pixels each.
pub open spec fn canvas_side(n: int, margin: int, ps: int) -> int {
    (n + 2 * margin) * ps
}

/// The width of the margin strip, in pixels.
pub open spec fn margin_px(cfg: ImageConfig) -> int {
    cfg.margin_size * cfg.pixel_size
}

/// The module row that canvas row `y` falls in; rows on or above the top of
/// the grid area count as row zero.
pub open spec fn module_row_spec(mpx: int, ps: int, y: int) -> int {
    if y - mpx <= 0 {
        0
    } else {
        (y - mpx) / ps
    }
}

/// Whether canvas pixel `(x, y)` shows a dark module: both margin-relative
/// coordinates must be positive (margin pixels and the leading grid edge are
/// background), and the module cell they fall in must be set.
pub open spec fn pixel_is_module(g: Seq<Seq<bool>>, mpx: int, ps: int, x: int, y: int) -> bool {
    let xr = x - mpx;
    let yr = y - mpx;
    xr > 0 && yr > 0 && module_at(g, xr / ps, yr / ps)
}

/// The foreground color in effect on canvas row `y`: the explicit two-stop
/// gradient when configured, else the auto-gradient walk when enabled, else
/// the constant configured color.
pub open spec fn foreground_at(cfg: ImageConfig, side: int, y: int) -> [u8; 3] {
    match cfg.color_gradient {
        Some(grad) => lerp_color(grad.0, grad.1, y, side),
        None => {
            if cfg.is_auto_gradient_enabled {
                auto_color(
                    cfg.color,
                    module_row_spec(margin_px(cfg), cfg.pixel_size as int, y) as nat,
                )
            } else {
                cfg.color
            }
        },
    }
}

/// The color of canvas pixel `(x, y)` as the rasterizer paints it.
pub open spec fn rendered_pixel(
    g: Seq<Seq<bool>>,
    cfg: ImageConfig,
    side: int,
    x: int,
    y: int,
) -> [u8; 3] {
    if pixel_is_module(g, margin_px(cfg), cfg.pixel_size as int, x, y) {
        foreground_at(cfg, side, y)
    } else {
        cfg.background_color
    }
}

/// `c` is exactly the canvas that rasterizing `g` under `cfg` describes:
/// square, of the prescribed side, each pixel the rendered color.
pub open spec fn rasterized(g: Seq<Seq<bool>>, cfg: ImageConfig, c: Canvas) -> bool {
    &&& c.wf()
    &&& c.spec_width() == canvas_side(g.len() as int, cfg.margin_size as int, cfg.pixel_size as int)
    &&& c.spec_height() == c.spec_width()
    &&& forall|x: int, y: int|
        0 <= x < c.spec_width() && 0 <= y < c.spec_height() ==> c.pixel_at(x, y) == rendered_pixel(
            g,
            cfg,
            c.spec_width(),
            x,
            y,
        )
}

/// With neither gradient configured, every pixel of a dark module is exactly
/// the configured foreground color and every other pixel is exactly the
/// background color.
pub proof fn lemma_plain_pixel_colors(
    g: Seq<Seq<bool>>,
    cfg: ImageConfig,
    side: int,
    x: int,
    y: int,
)
    requires
        cfg.color_gradient is None,
        !cfg.is_auto_gradient_enabled,
    ensures
        rendered_pixel(g, cfg, side, x, y) == (if pixel_is_module(
            g,
            margin_px(cfg),
            cfg.pixel_size as int,
            x,
            y,
        ) {
            cfg.color
        } else {
            cfg.background_color
        }),
{
}

/// Stepping one canvas row advances the module row by at most one.
proof fn lemma_module_row_step(mpx: int, ps: int, y: int)
    requires
        ps >= 1,
        y >= 1,
    ensures
        module_row_spec(mpx, ps, y) == module_row_spec(mpx, ps, y - 1) || module_row_spec(
            mpx,
            ps,
            y,
        ) == module_row_spec(mpx, ps, y - 1) + 1,
        module_row_spec(mpx, ps, y) >= module_row_spec(mpx, ps, y - 1),
{
    if y - mpx <= 0 {
        // both rows are zero
    } else if y - mpx == 1 {
        assert((1int) / ps == if ps == 1 { 1int } else { 0int }) by {
            if ps == 1 {
                assert((1int) / 1 == 1);
            } else {
                lemma_fundamental_div_mod_converse(1, ps, 0, 1);
            }
        }
    } else {
        let d = y - mpx;
        lemma_fundamental_div_mod(d - 1, ps);
        let q = (d - 1) / ps;
        let r = (d - 1) % ps;
        if r + 1 < ps {
            lemma_fundamental_div_mod_converse(d, ps, q, r + 1);
        } else {
            assert((q + 1) * ps == ps * q + ps) by (nonlinear_arith);
            lemma_fundamental_div_mod_converse(d, ps, q + 1, 0);
        }
    }
}

/// The module cell that canvas pixel `(x, y)` falls in, looked up in the
/// grid; `false` for margin pixels and cells beyond the grid.
fn module_lookup(grid: &ModuleGrid, mpx: usize, ps: usize, x: usize, y: usize) -> (r: bool)
    requires
        grid.wf(),
        ps >= 1,
    ensures
        r == pixel_is_module(grid@, mpx as int, ps as int, x as int, y as int),
{
    if x > mpx && y > mpx {
        let mx = (x - mpx) / ps;
        let my = (y - mpx) / ps;
        if mx < grid.size() && my < grid.size() {
            grid.get(mx, my)
        } else {
            false
        }
    } else {
        false
    }
}

/// The module row of canvas row `y`.
fn module_row_exec(mpx: usize, ps: usize, y: usize) -> (r: usize)
    requires
        ps >= 1,
    ensures
        r == module_row_spec(mpx as int, ps as int, y as int),
{
    if y > mpx {
        (y - mpx) / ps
    } else {
        0
    }
}

/// Converts the module grid plus style into the initial pixel canvas:
/// every pixel of a dark module takes the row's foreground color, every
/// other pixel the background color. Fails exactly when `pixel_size` is
/// zero.
pub fn rasterize(grid: &ModuleGrid, cfg: &ImageConfig) -> (r: Result<Canvas, RenderError>)
    requires
        grid.wf(),
        canvas_side(grid@.len() as int, cfg.margin_size as int, cfg.pixel_size as int)
            <= u32::MAX,
        canvas_side(grid@.len() as int, cfg.margin_size as int, cfg.pixel_size as int)
            * canvas_side(grid@.len() as int, cfg.margin_size as int, cfg.pixel_size as int)
            <= usize::MAX,
    ensures
        match r {
            Ok(c) => cfg.pixel_size >= 1 && rasterized(grid@, *cfg, c),
            Err(e) => e == RenderError::Config && cfg.pixel_size == 0,
        },
{
    if cfg.pixel_size == 0 {
        return Err(RenderError::Config);
    }
    let n: usize = grid.size();
    let ghost side_int = canvas_side(
        grid@.len() as int,
        cfg.margin_size as int,
        cfg.pixel_size as int,
    );
    proof {
        assert(n + 2 * (cfg.margin_size as int) <= side_int) by (nonlinear_arith)
            requires
                side_int == (n + 2 * (cfg.margin_size as int)) * (cfg.pixel_size as int),
                cfg.pixel_size >= 1,
                n >= 0,
                cfg.margin_size >= 0,
        ;
    }
    let ps: usize = cfg.pixel_size as usize;
    let m: usize = cfg.margin_size as usize;
    let side: usize = (n + 2 * m) * ps;
    proof {
        assert(m * ps <= side_int) by (nonlinear_arith)
            requires
                side_int == (n + 2 * (m as int)) * (ps as int),
                ps >= 1,
                n >= 0,
                m >= 0,
        ;
    }
    let mpx: usize = m * ps;

    let mut pixels: Vec<[u8; 3]> = Vec::new();
    let mut fg_auto: [u8; 3] = cfg.color;
    let mut last_row: usize = 0;
    let mut y: usize = 0;
    while y < side
        invariant
            grid.wf(),
            n == grid@.len(),
            cfg.pixel_size >= 1,
            ps == cfg.pixel_size,
            m == cfg.margin_size,
            mpx == margin_px(*cfg),
            side == side_int,
            side_int == canvas_side(n as int, m as int, ps as int),
            side <= u32::MAX,
            side * side <= usize::MAX,
            y <= side,
            pixels@.len() == y * side,
            last_row == module_row_spec(mpx as int, ps as int, if y > 0 {
                y - 1
            } else {
                0int
            }),
            fg_auto == auto_color(cfg.color, last_row as nat),
            forall|xx: int, yy: int|
                0 <= yy < y && 0 <= xx < side ==> pixels@[yy * side + xx] == rendered_pixel(
                    grid@,
                    *cfg,
                    side as int,
                    xx,
                    yy,
                ),
        decreases side - y,
    {
        proof {
            assert(y * side + side <= side * side) by (nonlinear_arith)
                requires
                    0 <= y < side,
            ;
        }
        let row = module_row_exec(mpx, ps, y);
        proof {
            if y > 0 {
                lemma_module_row_step(mpx as int, ps as int, y as int);
            }
        }
        if row != last_row {
            fg_auto = auto_step_color(&fg_auto);
            last_row = row;
        }
        let fg: [u8; 3] = match cfg.color_gradient {
            Some(grad) => gradient_color(&grad.0, &grad.1, y as u32, side as u32),
            None => {
                if cfg.is_auto_gradient_enabled {
                    fg_auto
                } else {
                    cfg.color
                }
            },
        };
        assert(fg == foreground_at(*cfg, side as int, y as int));

        let mut x: usize = 0;
        while x < side
            invariant
                grid.wf(),
                n == grid@.len(),
                cfg.pixel_size >= 1,
                ps == cfg.pixel_size,
                mpx == margin_px(*cfg),
                side == side_int,
                side * side <= usize::MAX,
                y < side,
                x <= side,
                y * side + side <= side * side,
                pixels@.len() == y * side + x,
                fg == foreground_at(*cfg, side as int, y as int),
                forall|xx: int, yy: int|
                    0 <= yy < y && 0 <= xx < side ==> pixels@[yy * side + xx] == rendered_pixel(
                        grid@,
                        *cfg,
                        side as int,
                        xx,
                        yy,
                    ),
                forall|xx: int|
                    0 <= xx < x ==> pixels@[y * side + xx] == rendered_pixel(
                        grid@,
                        *cfg,
                        side as int,
                        xx,
                        y as int,
                    ),
                last_row == module_row_spec(mpx as int, ps as int, y as int),
                fg_auto == auto_color(cfg.color, last_row as nat),
            decreases side - x,
        {
            let is_mod = module_lookup(grid, mpx, ps, x, y);
            let px: [u8; 3] = if is_mod {
                fg
            } else {
                cfg.background_color
            };
            pixels.push(px);
            proof {
                assert forall|xx: int, yy: int| 0 <= yy < y && 0 <= xx < side implies pixels@[yy
                    * side + xx] == rendered_pixel(grid@, *cfg, side as int, xx, yy) by {
                    lemma_earlier_row_index(side as int, y as int, xx, yy);
                }
            }
            x = x + 1;
        }
        proof {
            assert((y + 1) * side == y * side + side) by (nonlinear_arith);
        }
        y = y + 1;
    }

    let c = Canvas { width: side, height: side, pixels };
    proof {
        assert(rasterized(grid@, *cfg, c)) by {
            assert(forall|x: int, y: int|
                0 <= x < side && 0 <= y < side ==> c.pixel_at(x, y) == rendered_pixel(
                    grid@,
                    *cfg,
                    side as int,
                    x,
                    y,
                ));
        }
    }
    Ok(c)
}

} // verus!
