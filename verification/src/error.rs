//! The ways in which a decode can fail.

use vstd::prelude::*;

verus! {

/// Why no raster was produced. A failed decode returns nothing else: a short
/// stream is never padded and an unread one never guessed at.
#[derive(Clone, Copy, Debug, PartialEq, Eq, Structural)]
pub enum DecodeError {
    /// The stream does not consist of whole macroblocks, or it does not hold
    /// exactly as many of them as the raster has room for.
    TruncatedInput,
    /// The byte source could not be read.
    UnreadableSource,
}

} // verus!
