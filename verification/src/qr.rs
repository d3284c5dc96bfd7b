//! The QR payload record and the library's public operations on it.

use crate::canvas::{in_bounds, PixelCanvas};
use crate::color::{opaque_white, transparent_dark, Color};
use crate::compose::{
    band_pixel, combine_grids, grid_views, layout_fits, layout_offset, layout_total,
    overlay_watermark, overwrite_top_left, watermarked_pixel,
};
use crate::encode::{
    qr_encode, qr_modules, qr_render_svg, qr_svg_document, zlib_compress, zlib_deflate,
    MAX_SVG_MIN_DIMENSION,
};
use crate::error::QrcError;
use crate::grid::ModuleGrid;
use crate::raster::{
    lemma_unit_scale_round_trip, module_color, rasterize, rasterize_with_colors, sampled_color,
};
use vstd::prelude::*;
use vstd::string::{StrSliceExecFns, StringExecFns};
use vstd::utf8::encode_utf8;

verus! {

/// A payload to be encoded as a QR symbol, together with its advisory
/// text-encoding label.
///
/// The label is informational only; it is never validated against the
/// payload bytes, and the single accepted value is `"utf-8"`.
#[derive(Clone, Debug, Default, PartialEq, Eq, Hash, PartialOrd, Ord)]
pub struct QRCode {
    /// The data to be encoded in the QR code.
    pub data: Vec<u8>,
    /// The advisory text-encoding label; change it only through
    /// `set_encoding_format`, which validates it.
    pub encoding_format: String,
}

/// Whether the given data of every symbol in the sequence is accepted by
/// the encoder.
pub open spec fn all_encode(codes: Seq<QRCode>) -> bool {
    forall|i: int| 0 <= i < codes.len() ==> (#[trigger] qr_modules(codes[i].data@)) is Some
}

/// The encoded grid views of a sequence of symbols, in order.
pub open spec fn encoded_views(codes: Seq<QRCode>) -> Seq<Seq<Seq<bool>>> {
    Seq::new(codes.len(), |i: int| qr_modules(codes[i].data@).unwrap())
}

/// The value selected from a sequence of `(label, text)` pairs: the text
/// of the first pair whose label matches, or the empty text if none does.
pub open spec fn language_selection(
    entries: Seq<(Seq<char>, Seq<char>)>,
    lang: Seq<char>,
) -> Seq<char>
    decreases entries.len(),
{
    if entries.len() == 0 {
        Seq::empty()
    } else if entries[0].0 == lang {
        entries[0].1
    } else {
        language_selection(entries.drop_first(), lang)
    }
}

/// The raster image formats the format-dispatch operation accepts.
pub open spec fn raster_format(f: Seq<char>) -> bool {
    f == "png"@ || f == "jpg"@ || f == "gif"@
}

/// String equality by view.
fn str_eq(a: &str, b: &str) -> (r: bool)
    ensures
        r == (a@ == b@),
{
    let sa = String::from_str(a);
    let sb = String::from_str(b);
    sa == sb
}

impl QRCode {
    /// The text-encoding label attached to this payload.
    pub open spec fn spec_encoding_format(self) -> Seq<char> {
        self.encoding_format@
    }

    /// Creates a record holding the given payload bytes under the default
    /// label.
    pub fn new(data: Vec<u8>) -> (q: QRCode)
        ensures
            q.data == data,
            q.spec_encoding_format() == "utf-8"@,
    {
        QRCode { data, encoding_format: String::from_str("utf-8") }
    }

    /// Creates a record from a string, converting it to its UTF-8 byte
    /// representation.
    pub fn from_string(data: String) -> (q: QRCode)
        ensures
            q.data@ == encode_utf8(data@),
            q.spec_encoding_format() == "utf-8"@,
    {
        let bytes = data.as_str().as_bytes_vec();
        QRCode { data: bytes, encoding_format: String::from_str("utf-8") }
    }

    /// Creates a record holding the given payload bytes under the default
    /// label.
    pub fn from_bytes(data: Vec<u8>) -> (q: QRCode)
        ensures
            q.data == data,
            q.spec_encoding_format() == "utf-8"@,
    {
        QRCode { data, encoding_format: String::from_str("utf-8") }
    }

    /// Derives a copy of this record under a new text-encoding label.
    ///
    /// Only the single supported label value is accepted; any other
    /// label is rejected with `UnsupportedEncodingLabel`.
    pub fn set_encoding_format(&self, format: &str) -> (r: Result<QRCode, QrcError>)
        ensures
            r is Ok <==> format@ == "utf-8"@,
            r matches Ok(q) ==> q.data@ == self.data@ && q.spec_encoding_format() == format@,
            r is Err ==> r == Err::<QRCode, QrcError>(QrcError::UnsupportedEncodingLabel),
    {
        if str_eq(format, "utf-8") {
            Ok(QRCode { data: clone_bytes(&self.data), encoding_format: String::from_str(format) })
        } else {
            Err(QrcError::UnsupportedEncodingLabel)
        }
    }

    /// The text-encoding label of this record.
    pub fn get_encoding_format(&self) -> (r: &str)
        ensures
            r@ == self.spec_encoding_format(),
    {
        self.encoding_format.as_str()
    }

    /// Compresses payload text with the outside DEFLATE compressor before
    /// encoding.
    ///
    /// The body keeps the original UTF-8 bytes as a best-effort fallback —
    /// a deliberate policy, never an error — should the compressor ever
    /// report an internal failure; with an in-memory writer that cannot
    /// happen, so the result is always the compressed stream.
    pub fn compress_data(data: &str) -> (r: Vec<u8>)
        ensures
            r@ == zlib_deflate(encode_utf8(data@)),
    {
        let bytes = data.as_bytes_vec();
        match zlib_compress(&bytes) {
            Some(compressed) => compressed,
            None => bytes,
        }
    }

    /// Creates a record whose payload is the text registered for the
    /// fixed default language preference, or empty text when the entries
    /// hold no such label.  The first entry with the matching label wins.
    pub fn create_multilanguage(data_map: Vec<(String, String)>) -> (q: QRCode)
        ensures
            q.data@ == encode_utf8(language_selection(data_map.deep_view(), "en"@)),
            q.spec_encoding_format() == "utf-8"@,
    {
        let ghost entries = data_map.deep_view();
        proof {
            assert(entries.skip(0) =~= entries);
        }
        let mut i: usize = 0;
        while i < data_map.len()
            invariant
                i <= data_map.len(),
                entries == data_map.deep_view(),
                entries.len() == data_map.len(),
                language_selection(entries, "en"@) == language_selection(
                    entries.skip(i as int),
                    "en"@,
                ),
            decreases data_map.len() - i,
        {
            let ghost pre = entries.skip(i as int);
            if str_eq(data_map[i].0.as_str(), "en") {
                proof {
                    assert(pre[0] == entries[i as int]);
                    assert(language_selection(pre, "en"@) == pre[0].1);
                }
                return QRCode::from_string(data_map[i].1.clone());
            }
            proof {
                assert(pre[0] == entries[i as int]);
                assert(pre.drop_first() =~= entries.skip(i as int + 1));
            }
            i = i + 1;
        }
        proof {
            assert(entries.skip(i as int).len() == 0);
        }
        QRCode::from_string(String::new())
    }

    /// Creates a record whose payload is the update endpoint address with
    /// the initial data appended, so the content behind the symbol can be
    /// changed after creation.
    pub fn create_dynamic(initial_data: &str) -> (q: QRCode)
        ensures
            q.data@ == encode_utf8("https://your-api-endpoint.com/update?qrcode="@ + initial_data@),
            q.spec_encoding_format() == "utf-8"@,
    {
        let url = String::from_str("https://your-api-endpoint.com/update?qrcode=").concat(
            initial_data,
        );
        QRCode::from_string(url)
    }

    /// Creates one record per input string, in order.
    pub fn batch_generate_qr_codes(data: Vec<String>) -> (r: Vec<QRCode>)
        ensures
            r@.len() == data@.len(),
            forall|i: int|
                0 <= i < data@.len() ==> (#[trigger] r@[i]).data@ == encode_utf8(data@[i]@)
                    && r@[i].spec_encoding_format() == "utf-8"@,
    {
        let mut out: Vec<QRCode> = Vec::new();
        let mut i: usize = 0;
        while i < data.len()
            invariant
                i <= data@.len(),
                out@.len() == i,
                forall|t: int|
                    0 <= t < i as int ==> (#[trigger] out@[t]).data@ == encode_utf8(data@[t]@)
                        && out@[t].spec_encoding_format() == "utf-8"@,
            decreases data@.len() - i,
        {
            let item = data[i].clone();
            out.push(QRCode::from_string(item));
            i = i + 1;
        }
        out
    }

    /// Encodes the payload with the outside encoder and hands back the
    /// resulting module grid, or the construction error where the encoder
    /// rejects the payload.
    pub fn to_qrcode(&self) -> (r: Result<ModuleGrid, QrcError>)
        ensures
            r is Ok <==> qr_modules(self.data@) is Some,
            r matches Ok(g) ==> g.wf() && 1 <= g.side <= 177 && Some(g@) == qr_modules(self.data@),
            r is Err ==> r == Err::<ModuleGrid, QrcError>(QrcError::EncodingConstruction),
    {
        match qr_encode(&self.data) {
            Some(g) => Ok(g),
            None => Err(QrcError::EncodingConstruction),
        }
    }

    /// Renders the symbol onto a canvas of the given dimensions by
    /// nearest-neighbor sampling, with the default colors: transparent
    /// black dark modules over opaque white light modules.
    pub fn resize(&self, width: u32, height: u32) -> (r: Result<PixelCanvas, QrcError>)
        requires
            1 <= width,
            1 <= height,
            4 * ((width as int) * (height as int)) <= usize::MAX as int,
        ensures
            r is Ok <==> qr_modules(self.data@) is Some,
            r is Err ==> r == Err::<PixelCanvas, QrcError>(QrcError::EncodingConstruction),
            r matches Ok(c) ==> ({
                let g = qr_modules(self.data@).unwrap();
                &&& c.wf()
                &&& c.width == width
                &&& c.height == height
                &&& forall|x: int, y: int|
                    in_bounds(width as int, height as int, x, y) ==> c.pixel_at(x, y)
                        == sampled_color(
                        g,
                        width as int,
                        height as int,
                        x,
                        y,
                        transparent_dark(),
                        opaque_white(),
                    )
            }),
    {
        match qr_encode(&self.data) {
            Some(grid) => Ok(rasterize(&grid, width, height)),
            None => Err(QrcError::EncodingConstruction),
        }
    }

    /// Renders the symbol as a square pixel canvas for PNG output.
    ///
    /// The canvas has exactly `width * width` pixels for every payload the
    /// encoder accepts and every requested width.
    pub fn to_png(&self, width: u32) -> (r: Result<PixelCanvas, QrcError>)
        requires
            1 <= width,
            4 * ((width as int) * (width as int)) <= usize::MAX as int,
        ensures
            r is Ok <==> qr_modules(self.data@) is Some,
            r is Err ==> r == Err::<PixelCanvas, QrcError>(QrcError::EncodingConstruction),
            r matches Ok(c) ==> ({
                let g = qr_modules(self.data@).unwrap();
                &&& c.wf()
                &&& c.width == width
                &&& c.height == width
                &&& forall|x: int, y: int|
                    in_bounds(width as int, width as int, x, y) ==> c.pixel_at(x, y)
                        == sampled_color(
                        g,
                        width as int,
                        width as int,
                        x,
                        y,
                        transparent_dark(),
                        opaque_white(),
                    )
            }),
    {
        self.resize(width, width)
    }

    /// Renders the symbol as a square pixel canvas for JPG output; the
    /// pixels are identical to PNG output, only the outside codec differs.
    pub fn to_jpg(&self, width: u32) -> (r: Result<PixelCanvas, QrcError>)
        requires
            1 <= width,
            4 * ((width as int) * (width as int)) <= usize::MAX as int,
        ensures
            r is Ok <==> qr_modules(self.data@) is Some,
            r is Err ==> r == Err::<PixelCanvas, QrcError>(QrcError::EncodingConstruction),
            r matches Ok(c) ==> ({
                let g = qr_modules(self.data@).unwrap();
                &&& c.wf()
                &&& c.width == width
                &&& c.height == width
                &&& forall|x: int, y: int|
                    in_bounds(width as int, width as int, x, y) ==> c.pixel_at(x, y)
                        == sampled_color(
                        g,
                        width as int,
                        width as int,
                        x,
                        y,
                        transparent_dark(),
                        opaque_white(),
                    )
            }),
    {
        self.resize(width, width)
    }

    /// Renders the symbol as a square pixel canvas for GIF output; the
    /// pixels are identical to PNG output, only the outside codec differs.
    pub fn to_gif(&self, width: u32) -> (r: Result<PixelCanvas, QrcError>)
        requires
            1 <= width,
            4 * ((width as int) * (width as int)) <= usize::MAX as int,
        ensures
            r is Ok <==> qr_modules(self.data@) is Some,
            r is Err ==> r == Err::<PixelCanvas, QrcError>(QrcError::EncodingConstruction),
            r matches Ok(c) ==> ({
                let g = qr_modules(self.data@).unwrap();
                &&& c.wf()
                &&& c.width == width
                &&& c.height == width
                &&& forall|x: int, y: int|
                    in_bounds(width as int, width as int, x, y) ==> c.pixel_at(x, y)
                        == sampled_color(
                        g,
                        width as int,
                        width as int,
                        x,
                        y,
                        transparent_dark(),
                        opaque_white(),
                    )
            }),
    {
        self.resize(width, width)
    }

    /// Renders the symbol as a scalable vector document through the
    /// outside renderer, scaled so neither dimension is below the given
    /// minimum, with black dark modules on white.
    pub fn to_svg(&self, width: u32) -> (r: Result<String, QrcError>)
        requires
            width <= MAX_SVG_MIN_DIMENSION,
        ensures
            r is Ok <==> qr_modules(self.data@) is Some,
            r is Err ==> r == Err::<String, QrcError>(QrcError::EncodingConstruction),
            r matches Ok(s) ==> s@ == qr_svg_document(self.data@, width) && s@.len() > 0,
    {
        match qr_render_svg(&self.data, width) {
            Some(s) => Ok(s),
            None => Err(QrcError::EncodingConstruction),
        }
    }

    /// Renders the symbol at native resolution, coloring dark modules
    /// with the given accent color and keeping light modules opaque
    /// white.
    pub fn colorize(&self, color: Color) -> (r: Result<PixelCanvas, QrcError>)
        ensures
            r is Ok <==> qr_modules(self.data@) is Some,
            r is Err ==> r == Err::<PixelCanvas, QrcError>(QrcError::EncodingConstruction),
            r matches Ok(c) ==> ({
                let g = qr_modules(self.data@).unwrap();
                &&& c.wf()
                &&& c.width as int == g.len()
                &&& c.height as int == g.len()
                &&& forall|x: int, y: int|
                    in_bounds(g.len() as int, g.len() as int, x, y) ==> c.pixel_at(x, y)
                        == module_color(g, x, y, color, opaque_white())
            }),
    {
        let grid = match qr_encode(&self.data) {
            Some(g) => g,
            None => { return Err(QrcError::EncodingConstruction) },
        };
        let side: u32 = grid.side as u32;
        proof {
            assert((side as int) * (side as int) <= 177 * 177) by (nonlinear_arith)
                requires
                    1 <= (side as int) <= 177,
            ;
        }
        let c = rasterize_with_colors(&grid, side, side, color, Color::default_light());
        proof {
            assert forall|x: int, y: int|
                in_bounds(grid@.len() as int, grid@.len() as int, x, y) implies c.pixel_at(x, y)
                == module_color(grid@, x, y, color, opaque_white()) by {
                lemma_unit_scale_round_trip(grid@, x, y, color, opaque_white());
            }
        }
        Ok(c)
    }

    /// Alpha-blends a watermark image onto the bottom-right corner of the
    /// base image in place, rejecting watermarks that do not fit.
    pub fn add_image_watermark(img: &mut PixelCanvas, watermark: &PixelCanvas) -> (r: Result<
        (),
        QrcError,
    >)
        requires
            old(img).wf(),
            watermark.wf(),
        ensures
            final(img).wf(),
            final(img).width == old(img).width,
            final(img).height == old(img).height,
            r is Ok <==> (watermark.width <= old(img).width && watermark.height <= old(
            img,
            ).height),
            r is Err ==> r == Err::<(), QrcError>(QrcError::OutOfBoundsComposition) && *final(img)
                == *old(img),
            r is Ok ==> forall|x: int, y: int|
                in_bounds(old(img).width as int, old(img).height as int, x, y)
                    ==> final(img).pixel_at(x, y) == watermarked_pixel(*old(img), *watermark, x, y),
    {
        overlay_watermark(img, watermark)
    }

    /// Renders the symbol at native resolution and overwrites its
    /// top-left region with the foreground image's pixels (a direct
    /// replacement, not a blend), rejecting foregrounds that do not fit.
    pub fn overlay_image(&self, overlay: &PixelCanvas) -> (r: Result<PixelCanvas, QrcError>)
        requires
            overlay.wf(),
        ensures
            qr_modules(self.data@) is None ==> r == Err::<PixelCanvas, QrcError>(
                QrcError::EncodingConstruction,
            ),
            qr_modules(self.data@) matches Some(g) ==> ({
                &&& (overlay.width as int > g.len() || overlay.height as int > g.len()) ==> r
                    == Err::<PixelCanvas, QrcError>(QrcError::OutOfBoundsComposition)
                &&& (overlay.width as int <= g.len() && overlay.height as int <= g.len())
                    ==> r is Ok
            }),
            r matches Ok(c) ==> ({
                let g = qr_modules(self.data@).unwrap();
                &&& c.wf()
                &&& c.width as int == g.len()
                &&& c.height as int == g.len()
                &&& forall|x: int, y: int|
                    in_bounds(g.len() as int, g.len() as int, x, y) ==> c.pixel_at(x, y) == (
                    if x < overlay.width as int && y < overlay.height as int {
                        overlay.pixel_at(x, y)
                    } else {
                        module_color(g, x, y, transparent_dark(), opaque_white())
                    })
            }),
    {
        let grid = match qr_encode(&self.data) {
            Some(g) => g,
            None => { return Err(QrcError::EncodingConstruction) },
        };
        let side: u32 = grid.side as u32;
        proof {
            assert((side as int) * (side as int) <= 177 * 177) by (nonlinear_arith)
                requires
                    1 <= (side as int) <= 177,
            ;
        }
        let mut canvas = rasterize(&grid, side, side);
        match overwrite_top_left(&mut canvas, overlay) {
            Ok(_) => {
                proof {
                    assert forall|x: int, y: int|
                        in_bounds(grid@.len() as int, grid@.len() as int, x, y) implies
                    canvas.pixel_at(x, y) == (if x < overlay.width as int && y
                        < overlay.height as int {
                        overlay.pixel_at(x, y)
                    } else {
                        module_color(grid@, x, y, transparent_dark(), opaque_white())
                    }) by {
                        lemma_unit_scale_round_trip(
                            grid@,
                            x,
                            y,
                            transparent_dark(),
                            opaque_white(),
                        );
                    }
                }
                Ok(canvas)
            },
            Err(_) => Err(QrcError::OutOfBoundsComposition),
        }
    }

    /// Lays the given symbols out left to right at one pixel per module
    /// on a square canvas whose side is the sum of their native widths.
    ///
    /// An empty sequence is rejected with `EmptyInput`; a payload the
    /// encoder rejects surfaces `EncodingConstruction`; a layout beyond
    /// what the machine can address is rejected with
    /// `OutOfBoundsComposition`.
    pub fn combine_qr_codes(codes: &Vec<QRCode>) -> (r: Result<PixelCanvas, QrcError>)
        ensures
            codes@.len() == 0 ==> r == Err::<PixelCanvas, QrcError>(QrcError::EmptyInput),
            codes@.len() >= 1 && !all_encode(codes@) ==> r == Err::<PixelCanvas, QrcError>(
                QrcError::EncodingConstruction,
            ),
            codes@.len() >= 1 && all_encode(codes@) && !layout_fits(
                layout_total(encoded_views(codes@)),
            ) ==> r == Err::<PixelCanvas, QrcError>(QrcError::OutOfBoundsComposition),
            codes@.len() >= 1 && all_encode(codes@) && layout_fits(
                layout_total(encoded_views(codes@)),
            ) ==> r is Ok,
            r matches Ok(c) ==> ({
                let views = encoded_views(codes@);
                let total = layout_total(views);
                &&& c.wf()
                &&& c.width as int == total
                &&& c.height as int == total
                &&& forall|j: int, x: int, y: int|
                    #![trigger views[j], c.pixel_at(x, y)]
                    0 <= j < views.len() && layout_offset(views, j) <= x < layout_offset(views, j)
                        + views[j].len() && 0 <= y < total ==> c.pixel_at(x, y) == band_pixel(
                        views[j],
                        x - layout_offset(views, j),
                        y,
                    )
            }),
    {
        if codes.len() == 0 {
            return Err(QrcError::EmptyInput);
        }
        let mut grids: Vec<ModuleGrid> = Vec::new();
        let mut i: usize = 0;
        while i < codes.len()
            invariant
                i <= codes@.len(),
                grids@.len() == i,
                forall|t: int|
                    0 <= t < i as int ==> (#[trigger] grids@[t]).wf() && Some(grids@[t]@)
                        == qr_modules(codes@[t].data@),
            decreases codes@.len() - i,
        {
            match qr_encode(&codes[i].data) {
                Some(g) => { grids.push(g) },
                None => {
                    return Err(QrcError::EncodingConstruction);
                },
            }
            i = i + 1;
        }
        proof {
            assert forall|t: int| 0 <= t < codes@.len() implies (#[trigger] qr_modules(
                codes@[t].data@,
            )) is Some by {
                assert(Some(grids@[t]@) == qr_modules(codes@[t].data@));
            }
            assert forall|t: int| 0 <= t < grids@.len() implies grid_views(grids@)[t]
                == encoded_views(codes@)[t] by {
                assert(Some(grids@[t]@) == qr_modules(codes@[t].data@));
            }
            assert(grid_views(grids@) =~= encoded_views(codes@));
        }
        combine_grids(&grids)
    }
}

/// Renders a payload to a pixel canvas for the requested raster format,
/// failing loudly with `UnsupportedFormat` on any format outside the
/// supported set instead of producing a malformed image.
pub fn qr_code_to(data: Vec<u8>, format: &str, width: u32) -> (r: Result<PixelCanvas, QrcError>)
    requires
        1 <= width,
        4 * ((width as int) * (width as int)) <= usize::MAX as int,
    ensures
        !raster_format(format@) ==> r == Err::<PixelCanvas, QrcError>(QrcError::UnsupportedFormat),
        raster_format(format@) ==> ((r is Ok <==> qr_modules(data@) is Some) && (r is Err ==> r
            == Err::<PixelCanvas, QrcError>(QrcError::EncodingConstruction))),
        raster_format(format@) ==> (r matches Ok(c) ==> ({
            let g = qr_modules(data@).unwrap();
            &&& c.wf()
            &&& c.width == width
            &&& c.height == width
            &&& forall|x: int, y: int|
                in_bounds(width as int, width as int, x, y) ==> c.pixel_at(x, y) == sampled_color(
                    g,
                    width as int,
                    width as int,
                    x,
                    y,
                    transparent_dark(),
                    opaque_white(),
                )
        })),
{
    if str_eq(format, "png") {
        QRCode::from_bytes(data).to_png(width)
    } else if str_eq(format, "jpg") {
        QRCode::from_bytes(data).to_jpg(width)
    } else if str_eq(format, "gif") {
        QRCode::from_bytes(data).to_gif(width)
    } else {
        Err(QrcError::UnsupportedFormat)
    }
}

/// Byte-for-byte copy of a payload.
fn clone_bytes(data: &Vec<u8>) -> (r: Vec<u8>)
    ensures
        r@ == data@,
{
    let mut out: Vec<u8> = Vec::new();
    let mut i: usize = 0;
    while i < data.len()
        invariant
            i <= data@.len(),
            out@ =~= data@.subrange(0, i as int),
        decreases data@.len() - i,
    {
        out.push(data[i]);
        i = i + 1;
    }
    proof {
        assert(out@ =~= data@);
    }
    out
}

} // verus!
