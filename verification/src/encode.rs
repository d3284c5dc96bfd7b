//! Trusted interfaces to the outside QR encoder, its vector renderer, and
//! the outside DEFLATE compressor.
//!
//! Everything in this module is an `external_body` wrapper around one
//! outside operation, together with the names the rest of the library
//! uses to speak about those operations' results.  Each result is a pure
//! function of the wrapper's arguments, so it is given an uninterpreted
//! name rather than a re-statement of the outside algorithm.

use crate::grid::{Module, ModuleGrid};
use std::io::Write;
use vstd::prelude::*;

verus! {

/// The module grid (rows of dark-module flags) that the outside QR
/// encoder derives from a payload, or `None` where the encoder rejects
/// the payload (for example, data too long for every symbol version).
pub uninterp spec fn qr_modules(data: Seq<u8>) -> Option<Seq<Seq<bool>>>;

/// The SVG document that the outside vector renderer derives from a
/// payload at a given minimum total dimension, with black dark modules
/// and white light modules.
pub uninterp spec fn qr_svg_document(data: Seq<u8>, min_dimension: u32) -> Seq<char>;

/// The zlib stream that the outside DEFLATE compressor derives from a
/// byte sequence at the default compression level.
pub uninterp spec fn zlib_deflate(data: Seq<u8>) -> Seq<u8>;

/// The largest minimum dimension the vector renderer accepts; above it
/// the renderer's internal cell arithmetic could exceed its integer
/// range.
pub const MAX_SVG_MIN_DIMENSION: u32 = 4294967110;

/// Relies on `qrcode::QrCode::new`, which encodes a payload at medium
/// error correction into the smallest fitting symbol version (21 to 177
/// modules per side) and fails on payloads no version can hold, and on
/// its `width` and `to_colors` accessors, which expose the square grid's
/// side length and row-major cells.
#[verifier::external_body]
pub(crate) fn qr_encode(data: &Vec<u8>) -> (r: Option<ModuleGrid>)
    ensures
        r is Some <==> qr_modules(data@) is Some,
        r matches Some(g) ==> {
            &&& g.wf()
            &&& 1 <= g.side <= 177
            &&& Some(g@) == qr_modules(data@)
        },
{
    match qrcode::QrCode::new(data) {
        Ok(code) => {
            let side = code.width();
            let cells = code.to_colors().iter().map(|c| match c {
                qrcode::Color::Dark => Module::Dark,
                qrcode::Color::Light => Module::Light,
            }).collect();
            Some(ModuleGrid { side, cells })
        },
        Err(_) => None,
    }
}

/// Relies on `qrcode::QrCode::new` (as above) and on the builder that
/// `QrCode::render::<svg::Color>` returns: with `min_dimensions(d, d)`,
/// black dark color and white light color, `build` produces a non-empty
/// SVG document that depends only on the payload and `d`.
#[verifier::external_body]
pub(crate) fn qr_render_svg(data: &Vec<u8>, min_dimension: u32) -> (r: Option<String>)
    requires
        min_dimension <= MAX_SVG_MIN_DIMENSION,
    ensures
        r is Some <==> qr_modules(data@) is Some,
        r matches Some(s) ==> s@ == qr_svg_document(data@, min_dimension) && s@.len() > 0,
{
    match qrcode::QrCode::new(data) {
        Ok(code) => Some(
            code.render::<qrcode::render::svg::Color>()
                .min_dimensions(min_dimension, min_dimension)
                .dark_color(qrcode::render::svg::Color("#000000"))
                .light_color(qrcode::render::svg::Color("#FFFFFF"))
                .build(),
        ),
        Err(_) => None,
    }
}

/// Relies on `flate2::write::ZlibEncoder` writing into a byte vector:
/// `write_all` followed by `finish` produces the zlib stream of the
/// input at the default compression level.  Its only error paths are an
/// error of the underlying writer — here a `Vec`, whose `Write` the
/// standard library documents as never failing — and a compressor error
/// that the backend does not report while compressing a single written
/// buffer, so the call always succeeds; the `None` arm below is
/// defensive only.
#[verifier::external_body]
pub(crate) fn zlib_compress(data: &Vec<u8>) -> (r: Option<Vec<u8>>)
    ensures
        r is Some,
        r matches Some(c) ==> c@ == zlib_deflate(data@),
{
    let mut out: Vec<u8> = Vec::new();
    let mut encoder = flate2::write::ZlibEncoder::new(&mut out, flate2::Compression::default());
    if encoder.write_all(data.as_slice()).is_err() {
        return None;
    }
    if encoder.finish().is_err() {
        return None;
    }
    Some(out)
}

} // verus!
