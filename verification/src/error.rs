//! The error taxonomy of the rendering and compositing engine.

use vstd::prelude::*;

verus! {

/// Every recoverable failure the engine reports to its caller.
///
/// All conditions are local and recoverable; none is swallowed.  The silent
/// best-effort fallback of payload compression is deliberately *not* an
/// error (see `QRCode::compress_data`).
#[derive(Clone, Copy, Debug, PartialEq, Eq, Structural)]
pub enum QrcError {
    /// The external encoder rejected the payload (for example, the payload
    /// exceeds the maximum symbol capacity).
    EncodingConstruction,
    /// A format-dispatch operation was asked for an image type outside the
    /// supported set.
    UnsupportedFormat,
    /// The multi-symbol compositor was invoked with zero symbols.
    EmptyInput,
    /// A symbol was asked to adopt a text-encoding label other than the
    /// single accepted value.
    UnsupportedEncodingLabel,
    /// A watermark or overlay does not fit inside the base canvas, or a
    /// composition would exceed the addressable canvas size.
    OutOfBoundsComposition,
}

} // verus!
