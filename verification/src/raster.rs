//! Nearest-neighbor rasterization of a module grid onto a pixel canvas.

use crate::canvas::{in_bounds, pixel_in_bytes, nth_pixel_bytes, PixelCanvas};
use crate::color::{map_module, opaque_white, transparent_dark, Color};
use crate::grid::ModuleGrid;
use vstd::arithmetic::div_mod::{lemma_div_by_multiple, lemma_multiply_divide_lt};
use vstd::prelude::*;

verus! {

/// The source cell that nearest-neighbor sampling picks for destination
/// position `pos` out of `dim`, when the source axis has `n` cells:
/// `floor(pos / dim * n)`.
pub open spec fn src_cell(pos: int, dim: int, n: int) -> int {
    pos * n / dim
}

/// The color that nearest-neighbor rasterization of the grid `g` onto a
/// `w * h` canvas assigns to destination pixel `(x, y)`.
pub open spec fn sampled_color(
    g: Seq<Seq<bool>>,
    w: int,
    h: int,
    x: int,
    y: int,
    dark: Color,
    light: Color,
) -> Color {
    if g[src_cell(y, h, g.len() as int)][src_cell(x, w, g.len() as int)] {
        dark
    } else {
        light
    }
}

/// The color a unit-scale rendering (one pixel per module) assigns to
/// pixel `(x, y)`: the mapped color of module `(x, y)` itself.
pub open spec fn module_color(g: Seq<Seq<bool>>, x: int, y: int, dark: Color, light: Color) -> Color {
    if g[y][x] {
        dark
    } else {
        light
    }
}

/// Round-trip law: rasterizing a grid of side `n` onto an `n * n` canvas
/// assigns pixel `(x, y)` exactly the mapped color of module `(x, y)`, for
/// every position and every color pair.
pub proof fn lemma_unit_scale_round_trip(
    g: Seq<Seq<bool>>,
    x: int,
    y: int,
    dark: Color,
    light: Color,
)
    requires
        1 <= g.len(),
        0 <= x < g.len(),
        0 <= y < g.len(),
    ensures
        sampled_color(g, g.len() as int, g.len() as int, x, y, dark, light) == module_color(
            g,
            x,
            y,
            dark,
            light,
        ),
{
    let n = g.len() as int;
    lemma_div_by_multiple(x, n);
    lemma_div_by_multiple(y, n);
}

/// Samples the grid onto a canvas of the requested dimensions, assigning
/// each destination pixel the mapped color of its nearest source module.
///
/// The output dimensions are exactly the requested `width * height`, for
/// every grid and every requested size; the pixel values are a pure
/// function of the grid and the arguments.
pub fn rasterize_with_colors(
    grid: &ModuleGrid,
    width: u32,
    height: u32,
    dark: Color,
    light: Color,
) -> (c: PixelCanvas)
    requires
        grid.wf(),
        1 <= width,
        1 <= height,
        4 * ((width as int) * (height as int)) <= usize::MAX as int,
    ensures
        c.wf(),
        c.width == width,
        c.height == height,
        forall|x: int, y: int|
            in_bounds(width as int, height as int, x, y) ==> c.pixel_at(x, y) == sampled_color(
                grid@,
                width as int,
                height as int,
                x,
                y,
                dark,
                light,
            ),
{
    let ghost g = grid@;
    let ghost wi = width as int;
    let ghost hi = height as int;
    let n: usize = grid.side;
    let cells_len: usize = grid.cells.len();
    proof {
        assert(n as int <= 0x1_0000_0000int) by (nonlinear_arith)
            requires
                (n as int) * (n as int) == cells_len as int,
                cells_len as int <= 0xFFFF_FFFF_FFFF_FFFFint,
        ;
    }
    let mut buf: Vec<u8> = Vec::new();
    let mut y: u32 = 0;
    while y < height
        invariant
            grid.wf(),
            g == grid@,
            n == grid.side,
            n as int == g.len(),
            n as int <= 0x1_0000_0000,
            wi == width as int,
            hi == height as int,
            1 <= width,
            1 <= height,
            4 * (wi * hi) <= usize::MAX as int,
            y <= height,
            buf@.len() == 4 * ((y as int) * wi),
            forall|x2: int, y2: int|
                0 <= x2 < wi && 0 <= y2 < y as int ==> #[trigger] pixel_in_bytes(buf@, wi, x2, y2)
                    == sampled_color(g, wi, hi, x2, y2, dark, light),
        decreases height - y,
    {
        proof {
            assert((y as int) * (n as int) < 0x1_0000_0000_0000_0000int) by (nonlinear_arith)
                requires
                    0 <= (y as int) < 0x1_0000_0000int,
                    0 <= (n as int) <= 0x1_0000_0000int,
            ;
            assert((y as int) * (n as int) < (height as int) * (n as int)) by (nonlinear_arith)
                requires
                    0 <= (y as int) < (height as int),
                    1 <= (n as int),
            ;
            lemma_multiply_divide_lt((y as int) * (n as int), height as int, n as int);
        }
        let sy: usize = ((y as u64) * (n as u64) / (height as u64)) as usize;
        let mut x: u32 = 0;
        while x < width
            invariant
                grid.wf(),
                g == grid@,
                n == grid.side,
                n as int == g.len(),
                n as int <= 0x1_0000_0000,
                wi == width as int,
                hi == height as int,
                1 <= width,
                1 <= height,
                4 * (wi * hi) <= usize::MAX as int,
                y < height,
                x <= width,
                sy as int == src_cell(y as int, hi, n as int),
                sy < n,
                buf@.len() == 4 * ((y as int) * wi + (x as int)),
                forall|x2: int, y2: int|
                    (0 <= x2 < wi && 0 <= y2 < y as int) || (0 <= x2 < x as int && y2 == y as int)
                        ==> #[trigger] pixel_in_bytes(buf@, wi, x2, y2) == sampled_color(
                        g,
                        wi,
                        hi,
                        x2,
                        y2,
                        dark,
                        light,
                    ),
            decreases width - x,
        {
            proof {
                assert((x as int) * (n as int) < 0x1_0000_0000_0000_0000int) by (nonlinear_arith)
                    requires
                        0 <= (x as int) < 0x1_0000_0000int,
                        0 <= (n as int) <= 0x1_0000_0000int,
                ;
                assert((x as int) * (n as int) < (width as int) * (n as int)) by (nonlinear_arith)
                    requires
                        0 <= (x as int) < (width as int),
                        1 <= (n as int),
                ;
                lemma_multiply_divide_lt((x as int) * (n as int), width as int, n as int);
                assert(4 * ((y as int) * wi + (x as int)) + 4 <= 4 * (wi * hi)) by (nonlinear_arith)
                    requires
                        0 <= (x as int) < wi,
                        0 <= (y as int) < hi,
                ;
            }
            let sx: usize = ((x as u64) * (n as u64) / (width as u64)) as usize;
            let m = grid.get(sx, sy);
            let pix = map_module(m, dark, light);
            let ghost buf0 = buf@;
            buf.push(pix.r);
            buf.push(pix.g);
            buf.push(pix.b);
            buf.push(pix.a);
            proof {
                assert forall|x2: int, y2: int|
                    (0 <= x2 < wi && 0 <= y2 < y as int) || (0 <= x2 < x as int + 1 && y2
                        == y as int) implies #[trigger] pixel_in_bytes(buf@, wi, x2, y2)
                    == sampled_color(g, wi, hi, x2, y2, dark, light) by {
                    if y2 == y as int && x2 == x as int {
                        assert(nth_pixel_bytes(buf@, y2 * wi + x2) == pix);
                        assert(sampled_color(g, wi, hi, x2, y2, dark, light) == pix);
                    } else {
                        assert(y2 * wi + x2 < (y as int) * wi + (x as int)) by (nonlinear_arith)
                            requires
                                0 <= x2 < wi,
                                (0 <= y2 < (y as int)) || (0 <= x2 < (x as int) && y2 == (y as int)),
                        ;
                        assert(pixel_in_bytes(buf0, wi, x2, y2) == sampled_color(
                            g,
                            wi,
                            hi,
                            x2,
                            y2,
                            dark,
                            light,
                        ));
                        assert(buf@[4 * (y2 * wi + x2)] == buf0[4 * (y2 * wi + x2)]);
                        assert(buf@[4 * (y2 * wi + x2) + 1] == buf0[4 * (y2 * wi + x2) + 1]);
                        assert(buf@[4 * (y2 * wi + x2) + 2] == buf0[4 * (y2 * wi + x2) + 2]);
                        assert(buf@[4 * (y2 * wi + x2) + 3] == buf0[4 * (y2 * wi + x2) + 3]);
                    }
                }
            }
            x = x + 1;
        }
        proof {
            assert(((y as int) + 1) * wi == (y as int) * wi + wi) by (nonlinear_arith);
        }
        y = y + 1;
    }
    proof {
        assert(hi * wi == wi * hi) by (nonlinear_arith);
    }
    let c = PixelCanvas { width, height, buf };
    proof {
        assert forall|x: int, y: int|
            in_bounds(width as int, height as int, x, y) implies c.pixel_at(x, y) == sampled_color(
            g,
            wi,
            hi,
            x,
            y,
            dark,
            light,
        ) by {
            assert(pixel_in_bytes(buf@, wi, x, y) == sampled_color(g, wi, hi, x, y, dark, light));
        }
    }
    c
}

/// Samples the grid onto a canvas with the default colors: transparent
/// black for dark modules, opaque white for light ones.
pub fn rasterize(grid: &ModuleGrid, width: u32, height: u32) -> (c: PixelCanvas)
    requires
        grid.wf(),
        1 <= width,
        1 <= height,
        4 * ((width as int) * (height as int)) <= usize::MAX as int,
    ensures
        c.wf(),
        c.width == width,
        c.height == height,
        forall|x: int, y: int|
            in_bounds(width as int, height as int, x, y) ==> c.pixel_at(x, y) == sampled_color(
                grid@,
                width as int,
                height as int,
                x,
                y,
                transparent_dark(),
                opaque_white(),
            ),
{
    rasterize_with_colors(grid, width, height, Color::default_dark(), Color::default_light())
}

} // verus!
