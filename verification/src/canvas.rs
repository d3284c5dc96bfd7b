//! The pixel canvas: a mutable 2D buffer of 4-channel pixels.

use crate::color::Color;
use vstd::prelude::*;

verus! {

/// A mutable rectangular pixel buffer of `width * height` pixels, each a
/// 4-channel color stored as four consecutive bytes (red, green, blue,
/// alpha) in row-major order.
///
/// Well formed when `width >= 1`, `height >= 1` and the byte buffer holds
/// exactly `width * height * 4` bytes.
#[derive(Clone, Debug, PartialEq, Eq)]
pub struct PixelCanvas {
    /// Width in pixels.
    pub width: u32,
    /// Height in pixels.
    pub height: u32,
    /// Raw channel bytes, 4 per pixel, row-major.
    pub buf: Vec<u8>,
}

/// The color whose four channel bytes form the `j`-th pixel of a row-major
/// byte buffer.
pub open spec fn nth_pixel_bytes(s: Seq<u8>, j: int) -> Color {
    Color { r: s[4 * j], g: s[4 * j + 1], b: s[4 * j + 2], a: s[4 * j + 3] }
}

/// The color whose four channel bytes sit at pixel `(x, y)` of a row-major
/// byte buffer of the given pixel width.
pub open spec fn pixel_in_bytes(s: Seq<u8>, width: int, x: int, y: int) -> Color {
    nth_pixel_bytes(s, y * width + x)
}

/// Pixel positions inside a `width * height` canvas.
pub open spec fn in_bounds(width: int, height: int, x: int, y: int) -> bool {
    0 <= x < width && 0 <= y < height
}

/// Distinct pixel positions of one row-major grid occupy distinct cells.
proof fn lemma_pixel_cell_injective(w: int, x1: int, y1: int, x2: int, y2: int)
    requires
        0 <= x1 < w,
        0 <= x2 < w,
        0 <= y1,
        0 <= y2,
        x1 != x2 || y1 != y2,
    ensures
        y1 * w + x1 != y2 * w + x2,
{
    if y1 != y2 {
        assert(y1 * w + x1 != y2 * w + x2) by (nonlinear_arith)
            requires
                0 <= x1 < w,
                0 <= x2 < w,
                0 <= y1,
                0 <= y2,
                y1 != y2,
        ;
    }
}

impl PixelCanvas {
    /// The structural invariant every canvas operation relies on.
    pub open spec fn wf(self) -> bool {
        &&& 1 <= self.width
        &&& 1 <= self.height
        &&& self.buf@.len() == 4 * ((self.width as int) * (self.height as int))
    }

    /// The color of the pixel at zero-based `(x, y)`.
    pub open spec fn pixel_at(self, x: int, y: int) -> Color {
        pixel_in_bytes(self.buf@, self.width as int, x, y)
    }

    /// The byte offset of pixel `(x, y)`, shown to leave room for all four
    /// channel bytes.
    fn pixel_index(&self, x: u32, y: u32) -> (i: usize)
        requires
            self.wf(),
            x < self.width,
            y < self.height,
        ensures
            i == 4 * ((y as int) * (self.width as int) + (x as int)),
            i + 4 <= self.buf@.len(),
    {
        // Reading the buffer length puts the pixel count within the usize range.
        let _total_bytes: usize = self.buf.len();
        proof {
            assert((y as int) * (self.width as int) + (x as int) + 1 <= (self.width as int) * (
            self.height as int)) by (nonlinear_arith)
                requires
                    0 <= x < self.width,
                    0 <= y < self.height,
            ;
        }
        4 * ((y as usize) * (self.width as usize) + (x as usize))
    }

    /// Allocates a canvas of the requested dimensions with every pixel set
    /// to the given fill color.
    pub fn new_filled(width: u32, height: u32, fill: Color) -> (c: PixelCanvas)
        requires
            1 <= width,
            1 <= height,
            4 * ((width as int) * (height as int)) <= usize::MAX as int,
        ensures
            c.wf(),
            c.width == width,
            c.height == height,
            forall|x: int, y: int|
                in_bounds(width as int, height as int, x, y) ==> c.pixel_at(x, y) == fill,
    {
        let total: usize = (width as usize) * (height as usize);
        let mut buf: Vec<u8> = Vec::new();
        let mut i: usize = 0;
        while i < total
            invariant
                i <= total,
                total == (width as int) * (height as int),
                4 * total <= usize::MAX,
                buf@.len() == 4 * i,
                forall|j: int| 0 <= j < i ==> #[trigger] nth_pixel_bytes(buf@, j) == fill,
            decreases total - i,
        {
            let ghost buf0 = buf@;
            buf.push(fill.r);
            buf.push(fill.g);
            buf.push(fill.b);
            buf.push(fill.a);
            proof {
                assert forall|j: int| 0 <= j < i + 1 implies #[trigger] nth_pixel_bytes(buf@, j)
                    == fill by {
                    if j < i {
                        assert(nth_pixel_bytes(buf0, j) == fill);
                        assert(buf@[4 * j] == buf0[4 * j]);
                        assert(buf@[4 * j + 1] == buf0[4 * j + 1]);
                        assert(buf@[4 * j + 2] == buf0[4 * j + 2]);
                        assert(buf@[4 * j + 3] == buf0[4 * j + 3]);
                    } else {
                        assert(buf@[4 * j] == fill.r);
                        assert(buf@[4 * j + 1] == fill.g);
                        assert(buf@[4 * j + 2] == fill.b);
                        assert(buf@[4 * j + 3] == fill.a);
                    }
                }
            }
            i = i + 1;
        }
        let c = PixelCanvas { width, height, buf };
        proof {
            assert forall|x: int, y: int|
                in_bounds(width as int, height as int, x, y) implies c.pixel_at(x, y)
                == fill by {
                assert(0 <= y * (width as int) + x < total) by (nonlinear_arith)
                    requires
                        0 <= x < width,
                        0 <= y < height,
                        total == (width as int) * (height as int),
                ;
                assert(nth_pixel_bytes(buf@, y * (width as int) + x) == fill);
            }
        }
        c
    }

    /// The color of the pixel at `(x, y)`.
    pub fn get_pixel(&self, x: u32, y: u32) -> (c: Color)
        requires
            self.wf(),
            x < self.width,
            y < self.height,
        ensures
            c == self.pixel_at(x as int, y as int),
    {
        let i = self.pixel_index(x, y);
        Color { r: self.buf[i], g: self.buf[i + 1], b: self.buf[i + 2], a: self.buf[i + 3] }
    }

    /// Overwrites the pixel at `(x, y)`, leaving every other pixel as it
    /// was.
    pub fn put_pixel(&mut self, x: u32, y: u32, c: Color)
        requires
            old(self).wf(),
            x < old(self).width,
            y < old(self).height,
        ensures
            final(self).wf(),
            final(self).width == old(self).width,
            final(self).height == old(self).height,
            final(self).pixel_at(x as int, y as int) == c,
            forall|x2: int, y2: int|
                in_bounds(old(self).width as int, old(self).height as int, x2, y2) && !(x2
                    == x as int && y2 == y as int) ==> final(self).pixel_at(x2, y2) == old(
                self,
                ).pixel_at(x2, y2),
    {
        let i = self.pixel_index(x, y);
        self.buf[i] = c.r;
        self.buf[i + 1] = c.g;
        self.buf[i + 2] = c.b;
        self.buf[i + 3] = c.a;
        proof {
            let w = old(self).width as int;
            let h = old(self).height as int;
            assert forall|x2: int, y2: int|
                in_bounds(old(self).width as int, old(self).height as int, x2, y2) && !(x2
                    == x as int && y2 == y as int) implies self.pixel_at(x2, y2) == old(
                self,
            ).pixel_at(x2, y2) by {
                lemma_pixel_cell_injective(w, x2, y2, x as int, y as int);
                assert(0 <= y2 * w + x2 && y2 * w + x2 + 1 <= w * h) by (nonlinear_arith)
                    requires
                        0 <= x2 < w,
                        0 <= y2 < h,
                ;
                assert(self.buf@[4 * (y2 * w + x2)] == old(self).buf@[4 * (y2 * w + x2)]);
                assert(self.buf@[4 * (y2 * w + x2) + 1] == old(self).buf@[4 * (y2 * w + x2) + 1]);
                assert(self.buf@[4 * (y2 * w + x2) + 2] == old(self).buf@[4 * (y2 * w + x2) + 2]);
                assert(self.buf@[4 * (y2 * w + x2) + 3] == old(self).buf@[4 * (y2 * w + x2) + 3]);
            }
        }
    }

    /// The canvas dimensions as `(width, height)`.
    pub fn dimensions(&self) -> (d: (u32, u32))
        ensures
            d.0 == self.width,
            d.1 == self.height,
    {
        (self.width, self.height)
    }

    /// The length of the raw byte buffer; `width * height * 4` for a well
    /// formed canvas.
    pub fn len(&self) -> (n: usize)
        ensures
            n == self.buf@.len(),
    {
        self.buf.len()
    }

    /// Consumes the canvas and hands back its raw channel bytes.
    pub fn into_raw(self) -> (r: Vec<u8>)
        ensures
            r == self.buf,
    {
        self.buf
    }
}

} // verus!
