//! Decoder for the raw 4:1:1 still-image format of early digital cameras.
//!
//! A stream is a run of six-byte macroblocks, `[y0, y1, y2, y3, cb, cr]`: four
//! luma samples that lie side by side in a row and share one chroma pair. It
//! carries no header; the caller knows the width and height. Decoding turns
//! every luma sample into one RGB pixel by the Rec. 601 transform and lays
//! the pixels out in stream order, three bytes each.
//!
//! * [`color`] converts one sample, and proves that its two strategies agree.
//! * [`block`] holds the macroblock and the reader that cuts a stream into them.
//! * [`decode`] assembles the raster and states what a valid stream is.
//! * [`error`] names the ways a decode can fail.

pub mod block;
pub mod color;
pub mod decode;
pub mod error;

pub use block::{Macroblock, MacroblockReader};
pub use color::{rec601_fixed, rec601_float};
pub use decode::{decode_411, decode_source, HEIGHT, INPUT_LENGTH, LENGTH, WIDTH};
pub use error::DecodeError;
