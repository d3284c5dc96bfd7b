//! Matrix rendering and compositing engine for QR symbols.
//!
//! The crate turns an abstract grid of dark/light modules into raster
//! (pixel-buffer) or vector (SVG) output, recolors and resizes such
//! renderings, composites watermarks and logos onto them, and lays several
//! symbols out side by side.  The QR encoding itself and the DEFLATE
//! compression of payloads are performed by outside crates behind narrow,
//! documented interfaces; everything the engine computes on its own is
//! specified and verified.

pub mod canvas;
pub mod color;
pub mod compose;
pub mod encode;
pub mod error;
pub mod grid;
pub mod qr;
pub mod raster;

pub use canvas::PixelCanvas;
pub use color::Color;
pub use error::QrcError;
pub use grid::Module;
pub use grid::ModuleGrid;
pub use qr::QRCode;
