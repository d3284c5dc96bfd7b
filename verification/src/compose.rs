//! Compositing: alpha-blended watermarks, direct overlays, and the
//! side-by-side layout of several rasterized symbols.

use crate::canvas::{in_bounds, PixelCanvas};
use crate::color::{opaque_white, transparent_dark, Color};
use crate::error::QrcError;
use crate::grid::ModuleGrid;
use crate::raster::{lemma_unit_scale_round_trip, module_color, sampled_color};
use vstd::arithmetic::div_mod::lemma_div_multiples_vanish;
use vstd::prelude::*;

verus! {

/// One channel of the standard 8-bit "over" blend without
/// premultiplication: `(1 - alpha/255) * base + (alpha/255) * over`, with
/// the exact rational result truncated toward zero on store.
pub open spec fn blend_channel(base: u8, over: u8, alpha: u8) -> u8 {
    (((255 - (alpha as int)) * (base as int) + (alpha as int) * (over as int)) / 255) as u8
}

/// The alpha channel of the blend: `base + (alpha/255) * (255 - base)`,
/// truncated toward zero on store.
pub open spec fn blend_alpha(base: u8, alpha: u8) -> u8 {
    ((base as int) + (alpha as int) * (255 - (base as int)) / 255) as u8
}

/// A watermark pixel blended over a base pixel, channel by channel; the
/// watermark's alpha weights its red, green and blue contributions.
pub open spec fn blend_pixel(base: Color, over: Color) -> Color {
    Color {
        r: blend_channel(base.r, over.r, over.a),
        g: blend_channel(base.g, over.g, over.a),
        b: blend_channel(base.b, over.b, over.a),
        a: blend_alpha(base.a, over.a),
    }
}

fn blend_channel_exec(base: u8, over: u8, alpha: u8) -> (r: u8)
    ensures
        r == blend_channel(base, over, alpha),
{
    proof {
        assert((255 - (alpha as int)) * (base as int) <= 255 * 255 && 0 <= (255 - (alpha as int))
            * (base as int) && (alpha as int) * (over as int) <= 255 * 255 && 0 <= (alpha as int)
            * (over as int) && (255 - (alpha as int)) * (base as int) + (alpha as int) * (
        over as int) <= 255 * 255) by (nonlinear_arith)
            requires
                0 <= (alpha as int) <= 255,
                0 <= (base as int) <= 255,
                0 <= (over as int) <= 255,
        ;
    }
    let num: u32 = (255 - alpha as u32) * (base as u32) + (alpha as u32) * (over as u32);
    (num / 255) as u8
}

fn blend_alpha_exec(base: u8, alpha: u8) -> (r: u8)
    ensures
        r == blend_alpha(base, alpha),
{
    proof {
        assert(0 <= (alpha as int) * (255 - (base as int)) && (alpha as int) * (255 - (
        base as int)) <= 255 * (255 - (base as int))) by (nonlinear_arith)
            requires
                0 <= (alpha as int) <= 255,
                0 <= (base as int) <= 255,
        ;
        lemma_div_multiples_vanish(255 - (base as int), 255);
    }
    let part: u32 = (alpha as u32) * (255 - base as u32) / 255;
    base + (part as u8)
}

/// Blends one watermark pixel over one base pixel.
pub fn blend_pixels(base: Color, over: Color) -> (c: Color)
    ensures
        c == blend_pixel(base, over),
{
    Color {
        r: blend_channel_exec(base.r, over.r, over.a),
        g: blend_channel_exec(base.g, over.g, over.a),
        b: blend_channel_exec(base.b, over.b, over.a),
        a: blend_alpha_exec(base.a, over.a),
    }
}

/// The pixel `(x, y)` of a base canvas after a watermark has been blended
/// over its bottom-right corner: inside the anchored watermark region the
/// blend of the two pixels, elsewhere the base pixel unchanged.
pub open spec fn watermarked_pixel(base: PixelCanvas, wm: PixelCanvas, x: int, y: int) -> Color {
    let ox = base.width as int - wm.width as int;
    let oy = base.height as int - wm.height as int;
    if ox <= x && oy <= y {
        blend_pixel(base.pixel_at(x, y), wm.pixel_at(x - ox, y - oy))
    } else {
        base.pixel_at(x, y)
    }
}

/// Alpha-blends the watermark onto the base canvas in place, anchored to
/// the bottom-right corner.
///
/// A watermark larger than the base in either dimension is rejected and
/// the base is left untouched; otherwise the whole watermark region is
/// applied in one pass and every pixel outside it keeps its old value.
pub fn overlay_watermark(base: &mut PixelCanvas, watermark: &PixelCanvas) -> (r: Result<
    (),
    QrcError,
>)
    requires
        old(base).wf(),
        watermark.wf(),
    ensures
        final(base).wf(),
        final(base).width == old(base).width,
        final(base).height == old(base).height,
        r is Ok <==> (watermark.width <= old(base).width && watermark.height <= old(base).height),
        r is Err ==> r == Err::<(), QrcError>(QrcError::OutOfBoundsComposition) && *final(base)
            == *old(base),
        r is Ok ==> forall|x: int, y: int|
            in_bounds(old(base).width as int, old(base).height as int, x, y) ==> final(base).pixel_at(x, y) == watermarked_pixel(*old(base), *watermark, x, y),
{
    if watermark.width > base.width || watermark.height > base.height {
        return Err(QrcError::OutOfBoundsComposition);
    }
    let ox: u32 = base.width - watermark.width;
    let oy: u32 = base.height - watermark.height;
    let ghost b0 = *base;
    let mut dy: u32 = 0;
    while dy < watermark.height
        invariant
            base.wf(),
            watermark.wf(),
            base.width == b0.width,
            base.height == b0.height,
            b0.wf(),
            watermark.width <= b0.width,
            watermark.height <= b0.height,
            ox == b0.width - watermark.width,
            oy == b0.height - watermark.height,
            dy <= watermark.height,
            forall|x: int, y: int|
                in_bounds(b0.width as int, b0.height as int, x, y) ==> #[trigger] base.pixel_at(
                    x,
                    y,
                ) == (if ox <= x && oy <= y < oy + dy {
                    watermarked_pixel(b0, *watermark, x, y)
                } else {
                    b0.pixel_at(x, y)
                }),
        decreases watermark.height - dy,
    {
        let mut dx: u32 = 0;
        while dx < watermark.width
            invariant
                base.wf(),
                watermark.wf(),
                base.width == b0.width,
                base.height == b0.height,
                b0.wf(),
                watermark.width <= b0.width,
                watermark.height <= b0.height,
                ox == b0.width - watermark.width,
                oy == b0.height - watermark.height,
                dy < watermark.height,
                dx <= watermark.width,
                forall|x: int, y: int|
                    in_bounds(b0.width as int, b0.height as int, x, y) ==> #[trigger] base.pixel_at(
                        x,
                        y,
                    ) == (if (ox <= x && oy <= y < oy + dy) || (y == oy + dy && ox <= x < ox + dx) {
                        watermarked_pixel(b0, *watermark, x, y)
                    } else {
                        b0.pixel_at(x, y)
                    }),
            decreases watermark.width - dx,
        {
            let wp = watermark.get_pixel(dx, dy);
            let bp = base.get_pixel(ox + dx, oy + dy);
            let blended = blend_pixels(bp, wp);
            base.put_pixel(ox + dx, oy + dy, blended);
            dx = dx + 1;
        }
        dy = dy + 1;
    }
    Ok(())
}

/// Law: re-applying a fully transparent watermark is the identity.  With
/// every watermark alpha zero, each pixel of the watermarked canvas equals
/// the corresponding base pixel, so any number of re-applications leaves
/// the base canvas unchanged.
pub proof fn lemma_transparent_watermark_identity(
    base: PixelCanvas,
    wm: PixelCanvas,
    x: int,
    y: int,
)
    requires
        base.wf(),
        wm.wf(),
        wm.width <= base.width,
        wm.height <= base.height,
        forall|dx: int, dy: int|
            in_bounds(wm.width as int, wm.height as int, dx, dy) ==> (#[trigger] wm.pixel_at(
                dx,
                dy,
            )).a == 0,
        in_bounds(base.width as int, base.height as int, x, y),
    ensures
        watermarked_pixel(base, wm, x, y) == base.pixel_at(x, y),
{
    let ox = base.width as int - wm.width as int;
    let oy = base.height as int - wm.height as int;
    if ox <= x && oy <= y {
        let bp = base.pixel_at(x, y);
        let wp = wm.pixel_at(x - ox, y - oy);
        assert(wp.a == 0);
        lemma_div_multiples_vanish(bp.r as int, 255);
        lemma_div_multiples_vanish(bp.g as int, 255);
        lemma_div_multiples_vanish(bp.b as int, 255);
        assert(blend_pixel(bp, wp) == bp);
    }
}

/// Law: a fully opaque watermark exactly replaces the covered region.
/// Where the watermark pixel's alpha is 255, the watermarked canvas holds
/// exactly that watermark pixel.
pub proof fn lemma_opaque_watermark_replaces(base: PixelCanvas, wm: PixelCanvas, x: int, y: int)
    requires
        base.wf(),
        wm.wf(),
        wm.width <= base.width,
        wm.height <= base.height,
        in_bounds(base.width as int, base.height as int, x, y),
        base.width - wm.width <= x,
        base.height - wm.height <= y,
        wm.pixel_at(x - (base.width - wm.width), y - (base.height - wm.height)).a == 255,
    ensures
        watermarked_pixel(base, wm, x, y) == wm.pixel_at(
            x - (base.width - wm.width),
            y - (base.height - wm.height),
        ),
{
    let ox = base.width as int - wm.width as int;
    let oy = base.height as int - wm.height as int;
    let bp = base.pixel_at(x, y);
    let wp = wm.pixel_at(x - ox, y - oy);
    lemma_div_multiples_vanish(wp.r as int, 255);
    lemma_div_multiples_vanish(wp.g as int, 255);
    lemma_div_multiples_vanish(wp.b as int, 255);
    lemma_div_multiples_vanish(255 - (bp.a as int), 255);
    assert(blend_pixel(bp, wp) == wp);
}

/// The column where the band of symbol `j` starts when symbols are laid
/// out left to right at one pixel per module: the sum of the native
/// widths of the symbols before it.
pub open spec fn layout_offset(views: Seq<Seq<Seq<bool>>>, j: int) -> int
    decreases j,
{
    if j <= 0 {
        0
    } else {
        layout_offset(views, j - 1) + views[j - 1].len()
    }
}

/// The width (and height) of the combined canvas: the sum of all native
/// symbol widths.
pub open spec fn layout_total(views: Seq<Seq<Seq<bool>>>) -> int {
    layout_offset(views, views.len() as int)
}

/// The views of a sequence of module grids.
pub open spec fn grid_views(grids: Seq<ModuleGrid>) -> Seq<Seq<Seq<bool>>> {
    grids.map_values(|g: ModuleGrid| g@)
}

/// The machine limits a combined canvas must meet: its side must be
/// addressable and its byte buffer allocatable.
pub open spec fn layout_fits(total: int) -> bool {
    total <= u32::MAX as int && 4 * (total * total) <= usize::MAX as int
}

/// The pixel the combined canvas holds at height `y` inside the band of a
/// symbol with view `v`: the unit-rasterized symbol above, fully
/// transparent filler below it.
pub open spec fn band_pixel(v: Seq<Seq<bool>>, bx: int, y: int) -> Color {
    if y < v.len() {
        module_color(v, bx, y, transparent_dark(), opaque_white())
    } else {
        transparent_dark()
    }
}

/// Band offsets grow from left to right.
pub proof fn lemma_layout_offset_monotone(views: Seq<Seq<Seq<bool>>>, a: int, b: int)
    requires
        0 <= a <= b,
    ensures
        layout_offset(views, a) <= layout_offset(views, b),
    decreases b - a,
{
    if a < b {
        lemma_layout_offset_monotone(views, a, b - 1);
    }
}

/// Law: inside its column band the combined canvas holds, row for row, the
/// standalone unit-scale rasterization of that symbol.
pub proof fn lemma_band_matches_unit_rasterization(v: Seq<Seq<bool>>, bx: int, y: int)
    requires
        1 <= v.len(),
        0 <= bx < v.len(),
        0 <= y < v.len(),
    ensures
        band_pixel(v, bx, y) == sampled_color(
            v,
            v.len() as int,
            v.len() as int,
            bx,
            y,
            transparent_dark(),
            opaque_white(),
        ),
{
    lemma_unit_scale_round_trip(v, bx, y, transparent_dark(), opaque_white());
}

/// Writes the grid at one pixel per module with its top-left corner at
/// `(x_off, 0)`, leaving every other canvas pixel untouched.
fn blit_unit_grid(canvas: &mut PixelCanvas, grid: &ModuleGrid, x_off: u32)
    requires
        old(canvas).wf(),
        grid.wf(),
        x_off as int + grid@.len() <= old(canvas).width as int,
        grid@.len() <= old(canvas).height as int,
    ensures
        final(canvas).wf(),
        final(canvas).width == old(canvas).width,
        final(canvas).height == old(canvas).height,
        forall|x: int, y: int|
            in_bounds(old(canvas).width as int, old(canvas).height as int, x, y)
                ==> final(canvas).pixel_at(x, y) == (if x_off <= x < x_off as int + grid@.len()
                && y < grid@.len() {
                module_color(grid@, x - x_off as int, y, transparent_dark(), opaque_white())
            } else {
                old(canvas).pixel_at(x, y)
            }),
{
    let ghost c0 = *canvas;
    let ghost g = grid@;
    let nu: u32 = grid.side as u32;
    let mut ry: u32 = 0;
    while ry < nu
        invariant
            canvas.wf(),
            grid.wf(),
            c0.wf(),
            canvas.width == c0.width,
            canvas.height == c0.height,
            g == grid@,
            nu as int == g.len(),
            nu == grid.side,
            x_off as int + nu as int <= c0.width as int,
            nu <= c0.height,
            ry <= nu,
            forall|x: int, y: int|
                in_bounds(c0.width as int, c0.height as int, x, y) ==> #[trigger] canvas.pixel_at(
                    x,
                    y,
                ) == (if x_off <= x < x_off + nu && y < ry {
                    module_color(g, x - x_off as int, y, transparent_dark(), opaque_white())
                } else {
                    c0.pixel_at(x, y)
                }),
        decreases nu - ry,
    {
        let mut rx: u32 = 0;
        while rx < nu
            invariant
                canvas.wf(),
                grid.wf(),
                c0.wf(),
                canvas.width == c0.width,
                canvas.height == c0.height,
                g == grid@,
                nu as int == g.len(),
                nu == grid.side,
                x_off as int + nu as int <= c0.width as int,
                nu <= c0.height,
                ry < nu,
                rx <= nu,
                forall|x: int, y: int|
                    in_bounds(c0.width as int, c0.height as int, x, y)
                        ==> #[trigger] canvas.pixel_at(x, y) == (if (x_off <= x < x_off + nu && y
                        < ry) || (y == ry && x_off <= x < x_off + rx) {
                        module_color(g, x - x_off as int, y, transparent_dark(), opaque_white())
                    } else {
                        c0.pixel_at(x, y)
                    }),
            decreases nu - rx,
        {
            let m = grid.get(rx as usize, ry as usize);
            let pix = crate::color::map_module(m, Color::default_dark(), Color::default_light());
            canvas.put_pixel(x_off + rx, ry, pix);
            rx = rx + 1;
        }
        ry = ry + 1;
    }
}

/// Lays the given symbols out left to right at one pixel per module on a
/// square canvas whose side is the sum of their native widths.
///
/// The canvas below each symbol's band is fully transparent.  An empty
/// sequence is rejected; so is a layout whose canvas would exceed what the
/// machine can address.
pub fn combine_grids(grids: &Vec<ModuleGrid>) -> (r: Result<PixelCanvas, QrcError>)
    requires
        forall|i: int| 0 <= i < grids@.len() ==> (#[trigger] grids@[i]).wf(),
    ensures
        grids@.len() == 0 ==> r == Err::<PixelCanvas, QrcError>(QrcError::EmptyInput),
        grids@.len() >= 1 && !layout_fits(layout_total(grid_views(grids@))) ==> r == Err::<
            PixelCanvas,
            QrcError,
        >(QrcError::OutOfBoundsComposition),
        grids@.len() >= 1 && layout_fits(layout_total(grid_views(grids@))) ==> r is Ok,
        r is Ok ==> ({
            let views = grid_views(grids@);
            let total = layout_total(views);
            let c = r.unwrap();
            &&& c.wf()
            &&& c.width as int == total
            &&& c.height as int == total
            &&& forall|j: int, x: int, y: int|
                #![trigger views[j], c.pixel_at(x, y)]
                0 <= j < views.len() && layout_offset(views, j) <= x < layout_offset(views, j)
                    + views[j].len() && 0 <= y < total ==> c.pixel_at(x, y) == band_pixel(
                    views[j],
                    x - layout_offset(views, j),
                    y,
                )
        }),
{
    let ghost views = grid_views(grids@);
    let k: usize = grids.len();
    if k == 0 {
        return Err(QrcError::EmptyInput);
    }
    let mut total128: u128 = 0;
    let mut i: usize = 0;
    while i < k
        invariant
            k == grids@.len(),
            views == grid_views(grids@),
            forall|t: int| 0 <= t < grids@.len() ==> (#[trigger] grids@[t]).wf(),
            i <= k,
            total128 as int == layout_offset(views, i as int),
            total128 as int <= (i as int) * 0x1_0000_0000,
        decreases k - i,
    {
        let gi = &grids[i];
        let cells_len: usize = gi.cells.len();
        proof {
            assert(gi.side as int <= 0x1_0000_0000int) by (nonlinear_arith)
                requires
                    (gi.side as int) * (gi.side as int) == cells_len as int,
                    cells_len as int <= 0xFFFF_FFFF_FFFF_FFFFint,
            ;
            assert(views[i as int] == grids@[i as int]@);
            assert(views[i as int].len() == gi.side as int);
            assert((i as int) * 0x1_0000_0000 + 0x1_0000_0000 == ((i as int) + 1)
                * 0x1_0000_0000) by (nonlinear_arith);
            assert((i as int) + 1 <= 0xFFFF_FFFF_FFFF_FFFFint);
            assert(((i as int) + 1) * 0x1_0000_0000 <= 0xFFFF_FFFF_FFFF_FFFFint
                * 0x1_0000_0000) by (nonlinear_arith)
                requires
                    (i as int) + 1 <= 0xFFFF_FFFF_FFFF_FFFFint,
            ;
        }
        total128 = total128 + (gi.side as u128);
        i = i + 1;
    }
    if total128 > 0xFFFF_FFFFu128 {
        return Err(QrcError::OutOfBoundsComposition);
    }
    proof {
        assert((total128 as int) * (total128 as int) <= 0xFFFF_FFFFint * 0xFFFF_FFFFint)
            by (nonlinear_arith)
            requires
                0 <= (total128 as int) <= 0xFFFF_FFFFint,
        ;
    }
    let quad: u128 = 4u128 * (total128 * total128);
    if quad > (usize::MAX as u128) {
        return Err(QrcError::OutOfBoundsComposition);
    }
    let total: u32 = total128 as u32;
    proof {
        lemma_layout_offset_monotone(views, 1, views.len() as int);
        assert(views[0] == grids@[0]@);
        assert(layout_offset(views, 0) == 0);
        assert(layout_offset(views, 1) == views[0].len());
        assert(grids@[0].wf());
        assert(1 <= total);
    }
    let mut canvas = PixelCanvas::new_filled(total, total, Color::default_dark());
    let mut x_off: u32 = 0;
    let mut j: usize = 0;
    while j < k
        invariant
            k == grids@.len(),
            views == grid_views(grids@),
            forall|t: int| 0 <= t < grids@.len() ==> (#[trigger] grids@[t]).wf(),
            j <= k,
            total as int == layout_total(views),
            x_off as int == layout_offset(views, j as int),
            canvas.wf(),
            canvas.width == total,
            canvas.height == total,
            forall|jj: int, x: int, y: int|
                #![trigger views[jj], canvas.pixel_at(x, y)]
                0 <= jj < j as int && layout_offset(views, jj) <= x < layout_offset(views, jj)
                    + views[jj].len() && 0 <= y < total as int ==> canvas.pixel_at(x, y)
                    == band_pixel(views[jj], x - layout_offset(views, jj), y),
            forall|x: int, y: int|
                layout_offset(views, j as int) <= x < total as int && 0 <= y < total as int
                    ==> #[trigger] canvas.pixel_at(x, y) == transparent_dark(),
        decreases k - j,
    {
        let gj = &grids[j];
        let ghost cpre = canvas;
        proof {
            assert(views[j as int] == grids@[j as int]@);
            assert(views[j as int].len() == gj.side as int);
            assert(layout_offset(views, j as int + 1) == layout_offset(views, j as int)
                + views[j as int].len());
            lemma_layout_offset_monotone(views, j as int + 1, views.len() as int);
        }
        blit_unit_grid(&mut canvas, gj, x_off);
        proof {
            assert forall|jj: int, x: int, y: int|
                #![trigger views[jj], canvas.pixel_at(x, y)]
                0 <= jj < j as int + 1 && layout_offset(views, jj) <= x < layout_offset(views, jj)
                    + views[jj].len() && 0 <= y < total as int implies canvas.pixel_at(x, y)
                == band_pixel(views[jj], x - layout_offset(views, jj), y) by {
                if jj < j as int {
                    lemma_layout_offset_monotone(views, 0, jj);
                    lemma_layout_offset_monotone(views, jj + 1, j as int);
                    assert(canvas.pixel_at(x, y) == cpre.pixel_at(x, y));
                } else {
                    if y >= views[jj].len() {
                        assert(canvas.pixel_at(x, y) == cpre.pixel_at(x, y));
                        assert(cpre.pixel_at(x, y) == transparent_dark());
                    }
                }
            }
        }
        x_off = x_off + (gj.side as u32);
        j = j + 1;
    }
    Ok(canvas)
}

/// Overwrites the top-left region of the base canvas with the foreground
/// image's pixels: a direct replacement, not an alpha blend.
///
/// A foreground larger than the base in either dimension is rejected and
/// the base is left untouched.
pub fn overwrite_top_left(base: &mut PixelCanvas, fg: &PixelCanvas) -> (r: Result<(), QrcError>)
    requires
        old(base).wf(),
        fg.wf(),
    ensures
        final(base).wf(),
        final(base).width == old(base).width,
        final(base).height == old(base).height,
        r is Ok <==> (fg.width <= old(base).width && fg.height <= old(base).height),
        r is Err ==> r == Err::<(), QrcError>(QrcError::OutOfBoundsComposition) && *final(base)
            == *old(base),
        r is Ok ==> forall|x: int, y: int|
            in_bounds(old(base).width as int, old(base).height as int, x, y)
                ==> final(base).pixel_at(x, y) == (if x < fg.width as int && y < fg.height as int {
                fg.pixel_at(x, y)
            } else {
                old(base).pixel_at(x, y)
            }),
{
    if fg.width > base.width || fg.height > base.height {
        return Err(QrcError::OutOfBoundsComposition);
    }
    let ghost b0 = *base;
    let mut dy: u32 = 0;
    while dy < fg.height
        invariant
            base.wf(),
            fg.wf(),
            b0.wf(),
            base.width == b0.width,
            base.height == b0.height,
            fg.width <= b0.width,
            fg.height <= b0.height,
            dy <= fg.height,
            forall|x: int, y: int|
                in_bounds(b0.width as int, b0.height as int, x, y) ==> #[trigger] base.pixel_at(
                    x,
                    y,
                ) == (if x < fg.width && y < dy {
                    fg.pixel_at(x, y)
                } else {
                    b0.pixel_at(x, y)
                }),
        decreases fg.height - dy,
    {
        let mut dx: u32 = 0;
        while dx < fg.width
            invariant
                base.wf(),
                fg.wf(),
                b0.wf(),
                base.width == b0.width,
                base.height == b0.height,
                fg.width <= b0.width,
                fg.height <= b0.height,
                dy < fg.height,
                dx <= fg.width,
                forall|x: int, y: int|
                    in_bounds(b0.width as int, b0.height as int, x, y)
                        ==> #[trigger] base.pixel_at(x, y) == (if (x < fg.width && y < dy) || (y
                        == dy && x < dx) {
                        fg.pixel_at(x, y)
                    } else {
                        b0.pixel_at(x, y)
                    }),
            decreases fg.width - dx,
        {
            let p = fg.get_pixel(dx, dy);
            base.put_pixel(dx, dy, p);
            dx = dx + 1;
        }
        dy = dy + 1;
    }
    Ok(())
}

} // verus!
