//! Decoding a whole stream into an RGB raster.
//!
//! The raster holds three bytes a pixel, red, green, blue, row after row from
//! the top, each row from the left. A stream holds its macroblocks in the same
//! order, so pixel `p` of the raster comes from luma sample `p % 4` of
//! macroblock `p / 4`, and macroblock `k` fills the twelve bytes from `12 * k`
//! on. A place in the raster follows from the place in the stream alone.

use vstd::arithmetic::div_mod::{lemma_fundamental_div_mod, lemma_fundamental_div_mod_converse};
use vstd::prelude::*;
use crate::block::{Macroblock, MacroblockReader};
use crate::color::{channel, rec601_exact};
use crate::error::DecodeError;

verus! {

/// The width, in pixels, of the images that the camera takes.
pub const WIDTH: u32 = 64;

/// The height, in pixels, of the images that the camera takes.
pub const HEIGHT: u32 = 48;

/// The number of bytes in a stream that holds one image of the camera.
pub const INPUT_LENGTH: usize = 4608;

/// The number of bytes in the raster of one image of the camera.
pub const LENGTH: usize = 9216;

/// Whether `stream` fills a raster of `width` by `height` pixels exactly: it
/// consists of whole macroblocks, and they hold one luma sample for each
/// pixel.
pub open spec fn is_valid_stream(stream: Seq<u8>, width: u32, height: u32) -> bool {
    &&& stream.len() % 6 == 0
    &&& 4 * (stream.len() / 6) == width * height
}

/// Pixel `p` of the raster that `stream` decodes to, counting in raster
/// order from 0.
pub open spec fn pixel_of(stream: Seq<u8>, p: int) -> (u8, u8, u8)
    recommends
        0 <= p < 4 * (stream.len() / 6),
{
    let k = p / 4;
    rec601_exact(stream[6 * k + p % 4], stream[6 * k + 4], stream[6 * k + 5])
}

/// The raster that the whole macroblocks of `stream` decode to.
pub open spec fn raster_of(stream: Seq<u8>) -> Seq<u8> {
    Seq::new((12 * (stream.len() / 6)) as nat, |i: int| channel(pixel_of(stream, i / 3), i % 3))
}

/// What decoding `stream` for a raster of `width` by `height` pixels gives.
pub open spec fn decoded(stream: Seq<u8>, width: u32, height: u32) -> Result<Seq<u8>, DecodeError> {
    if is_valid_stream(stream, width, height) {
        Ok(raster_of(stream))
    } else {
        Err(DecodeError::TruncatedInput)
    }
}

/// The outcome of a decode with the raster taken as a sequence of bytes.
pub open spec fn outcome(result: Result<Vec<u8>, DecodeError>) -> Result<Seq<u8>, DecodeError> {
    match result {
        Ok(raster) => Ok(raster@),
        Err(e) => Err(e),
    }
}

/// A stream that fills its raster is half again as long as the raster has
/// pixels, and the raster it decodes to has three bytes for each pixel. A
/// stream of any other length is rejected as truncated, and so is every
/// stream where the pixels cannot be shared out four to a macroblock.
pub proof fn lemma_lengths(stream: Seq<u8>, width: u32, height: u32)
    ensures
        is_valid_stream(stream, width, height) <==> {
            &&& 2 * stream.len() == 3 * (width * height)
            &&& (width * height) % 4 == 0
        },
        is_valid_stream(stream, width, height) ==> {
            &&& raster_of(stream).len() == 3 * (width * height)
            &&& decoded(stream, width, height) == Ok::<Seq<u8>, DecodeError>(raster_of(stream))
        },
        !is_valid_stream(stream, width, height) ==> {
            decoded(stream, width, height) == Err::<Seq<u8>, DecodeError>(
                DecodeError::TruncatedInput,
            )
        },
{
}

/// For the camera's own geometry the streams that decode are those of
/// `INPUT_LENGTH` bytes, and their rasters have `LENGTH` bytes.
pub proof fn lemma_camera_lengths(stream: Seq<u8>)
    ensures
        2 * INPUT_LENGTH == 3 * (WIDTH * HEIGHT),
        LENGTH == 3 * (WIDTH * HEIGHT),
        is_valid_stream(stream, WIDTH, HEIGHT) <==> stream.len() == INPUT_LENGTH,
        is_valid_stream(stream, WIDTH, HEIGHT) ==> raster_of(stream).len() == LENGTH,
{
}

/// Where the width is a multiple of four, no macroblock runs over the end of
/// a row: the four pixels of macroblock `k` lie in one row, side by side.
pub proof fn lemma_block_in_one_row(width: u32, k: int)
    requires
        width > 0,
        width % 4 == 0,
        0 <= k,
    ensures
        (4 * k + 3) / (width as int) == (4 * k) / (width as int),
        (4 * k + 3) % (width as int) == (4 * k) % (width as int) + 3,
{
    let w = width as int;
    let row = (4 * k) / w;
    let col = (4 * k) % w;
    lemma_fundamental_div_mod(4 * k, w);
    let quarter = w / 4;
    assert(w * row == 4 * (quarter * row)) by (nonlinear_arith)
        requires
            w == 4 * quarter,
    ;
    assert(col == 4 * (k - quarter * row));
    assert(col + 3 < w);
    lemma_fundamental_div_mod_converse(4 * k + 3, w, row, col + 3);
}

/// Macroblock `k` of a stream decodes to the twelve bytes of the raster that
/// start at `12 * k`, whatever stands before or after it.
pub proof fn lemma_block_offset(stream: Seq<u8>, k: int)
    requires
        0 <= k,
        6 * k + 6 <= stream.len(),
    ensures
        12 * k + 12 <= raster_of(stream).len(),
        raster_of(stream).subrange(12 * k, 12 * k + 12) == Macroblock::at(stream, k).rgb(),
{
    let block = Macroblock::at(stream, k);
    let part = raster_of(stream).subrange(12 * k, 12 * k + 12);
    assert(part.len() == 12);
    assert forall|j: int| 0 <= j < 12 implies part[j] == block.rgb()[j] by {
        let i = 12 * k + j;
        assert(i / 3 == 4 * k + j / 3);
        assert(i % 3 == j % 3);
        assert((i / 3) / 4 == k);
        assert((i / 3) % 4 == j / 3);
        assert(block.luma[j / 3] == stream[6 * k + j / 3]);
    }
    assert(part =~= block.rgb());
}

/// Decoding is a function of the bytes and the geometry: two streams that
/// agree byte for byte decode to the same outcome, run after run.
pub proof fn lemma_deterministic(a: Seq<u8>, b: Seq<u8>, width: u32, height: u32)
    requires
        a.len() == b.len(),
        forall|i: int| 0 <= i < a.len() ==> a[i] == b[i],
    ensures
        decoded(a, width, height) == decoded(b, width, height),
{
    assert(a =~= b);
}

/// Whether a stream of `len` bytes has three bytes for every two pixels.
fn length_fits(len: usize, width: u32, height: u32) -> (fits: bool)
    ensures
        fits <==> 2 * len == 3 * (width * height),
{
    assert(width * height <= 0xffff_ffff * 0xffff_ffff) by (nonlinear_arith)
        requires
            0 <= width <= 0xffff_ffff,
            0 <= height <= 0xffff_ffff,
    ;
    let pixels: u64 = width as u64 * height as u64;
    2 * (len as u128) == 3 * (pixels as u128)
}

/// Decodes `input` into the raster of an image of `width` by `height`
/// pixels.
///
/// The result is the raster exactly when `input` consists of whole
/// macroblocks and holds one luma sample for each pixel; it then has
/// `3 * width * height` bytes. Any other input, too short or too long, is
/// rejected with `TruncatedInput`, and no part of a raster is returned.
pub fn decode_411(input: &[u8], width: u32, height: u32) -> (result: Result<Vec<u8>, DecodeError>)
    ensures
        outcome(result) == decoded(input@, width, height),
        result is Ok <==> is_valid_stream(input@, width, height),
        result matches Ok(raster) ==> raster@.len() == 3 * (width * height),
        result matches Err(e) ==> e == DecodeError::TruncatedInput,
{
    if !length_fits(input.len(), width, height) {
        return Err(DecodeError::TruncatedInput);
    }
    let mut reader = MacroblockReader::new(input);
    let mut raster: Vec<u8> = match input.len().checked_mul(2) {
        Some(capacity) => Vec::with_capacity(capacity),
        None => Vec::new(),
    };
    loop
        invariant
            reader.stream() == input@,
            2 * input@.len() == 3 * (width * height),
            12 * reader.blocks_read() <= raster_of(input@).len(),
            raster@ == raster_of(input@).subrange(0, 12 * (reader.blocks_read() as int)),
        decreases reader.remaining(),
    {
        let ghost k = reader.blocks_read() as int;
        match reader.next_block() {
            Ok(Some(block)) => {
                let rgb = block.to_rgb();
                raster.extend_from_slice(rgb.as_slice());
                proof {
                    lemma_block_offset(input@, k);
                    let whole = raster_of(input@);
                    assert(raster@ =~= whole.subrange(0, 12 * k) + whole.subrange(
                        12 * k,
                        12 * k + 12,
                    ));
                }
            },
            Ok(None) => {
                assert(raster@ =~= raster_of(input@));
                return Ok(raster);
            },
            Err(e) => {
                return Err(e);
            },
        }
    }
}

/// Decodes what was read from a byte source: `Some` with all of its bytes,
/// or `None` where the source could not be read.
///
/// An unread source is reported as `UnreadableSource`; nothing is tried
/// again. Bytes that were read are decoded as [`decode_411`] decodes them.
pub fn decode_source(source: Option<&[u8]>, width: u32, height: u32) -> (result: Result<
    Vec<u8>,
    DecodeError,
>)
    ensures
        match source {
            Some(input) => outcome(result) == decoded(input@, width, height),
            None => result == Err::<Vec<u8>, DecodeError>(DecodeError::UnreadableSource),
        },
{
    match source {
        Some(input) => decode_411(input, width, height),
        None => Err(DecodeError::UnreadableSource),
    }
}

} // verus!
