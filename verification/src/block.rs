//! The macroblock, and the reader that cuts a stream into macroblocks.
//!
//! A macroblock is six bytes, `[y0, y1, y2, y3, cb, cr]`: four luma samples
//! that lie side by side in a row, and the one chroma pair that they share.
//! It decodes to four pixels, twelve bytes of RGB, in the order of its luma
//! samples.

use vstd::prelude::*;
use crate::color::{channel, rec601_exact, rec601_fixed};
use crate::error::DecodeError;

verus! {

/// The number of bytes that one macroblock takes in a stream.
pub const BLOCK_BYTES: usize = 6;

/// Four luma samples and the chroma pair that they share.
#[derive(Clone, Copy, Debug, PartialEq, Eq)]
pub struct Macroblock {
    /// The luma samples, from left to right.
    pub luma: [u8; 4],
    /// The blue-difference chroma sample, biased by 128.
    pub cb: u8,
    /// The red-difference chroma sample, biased by 128.
    pub cr: u8,
}

impl Macroblock {
    /// Macroblock number `k` of a stream, counting from 0.
    pub open spec fn at(stream: Seq<u8>, k: int) -> Macroblock
        recommends
            0 <= k,
            6 * k + 6 <= stream.len(),
    {
        Macroblock {
            luma: [stream[6 * k], stream[6 * k + 1], stream[6 * k + 2], stream[6 * k + 3]],
            cb: stream[6 * k + 4],
            cr: stream[6 * k + 5],
        }
    }

    /// The pixel that luma sample `lane` decodes to.
    pub open spec fn pixel(self, lane: int) -> (u8, u8, u8)
        recommends
            0 <= lane < 4,
    {
        rec601_exact(self.luma[lane], self.cb, self.cr)
    }

    /// The twelve bytes that the block decodes to: its four pixels from left
    /// to right, each as red, green, blue.
    pub open spec fn rgb(self) -> Seq<u8> {
        Seq::new(12, |i: int| channel(self.pixel(i / 3), i % 3))
    }

    /// Decodes the block into its twelve bytes of RGB.
    pub fn to_rgb(&self) -> (out: [u8; 12])
        ensures
            out@ == self.rgb(),
    {
        let (r0, g0, b0): (u8, u8, u8) = rec601_fixed(self.luma[0], self.cb, self.cr);
        let (r1, g1, b1): (u8, u8, u8) = rec601_fixed(self.luma[1], self.cb, self.cr);
        let (r2, g2, b2): (u8, u8, u8) = rec601_fixed(self.luma[2], self.cb, self.cr);
        let (r3, g3, b3): (u8, u8, u8) = rec601_fixed(self.luma[3], self.cb, self.cr);
        let out: [u8; 12] = [r0, g0, b0, r1, g1, b1, r2, g2, b2, r3, g3, b3];
        assert(out@ =~= self.rgb());
        out
    }
}

/// Hands out the macroblocks of a stream one after the other, in stream
/// order. It keeps nothing but its place in the stream.
pub struct MacroblockReader<'a> {
    source: &'a [u8],
    taken: usize,
}

impl<'a> MacroblockReader<'a> {
    /// The blocks handed out so far all lie within the stream.
    #[verifier::type_invariant]
    spec fn within_source(self) -> bool {
        6 * self.taken <= self.source@.len()
    }

    /// The whole stream that is being read.
    pub closed spec fn stream(self) -> Seq<u8> {
        self.source@
    }

    /// The number of macroblocks handed out so far.
    pub closed spec fn blocks_read(self) -> nat {
        self.taken as nat
    }

    /// The number of bytes that are not yet consumed.
    pub open spec fn remaining(self) -> int {
        self.stream().len() - 6 * self.blocks_read()
    }

    /// A reader at the start of `source`.
    pub fn new(source: &'a [u8]) -> (reader: Self)
        ensures
            reader.stream() == source@,
            reader.blocks_read() == 0,
    {
        MacroblockReader { source, taken: 0 }
    }

    /// Takes the next macroblock off the stream.
    ///
    /// With six bytes or more left, the result is the next block, and the
    /// reader moves past it. With none left the stream has ended where a
    /// block ends, which is how every well-formed stream ends: the result is
    /// `Ok(None)`. With one to five bytes left the stream breaks off inside a
    /// block and the result is `TruncatedInput`. In the last two cases the
    /// reader stays where it is.
    pub fn next_block(&mut self) -> (next: Result<Option<Macroblock>, DecodeError>)
        ensures
            final(self).stream() == old(self).stream(),
            match next {
                Ok(Some(block)) => {
                    &&& old(self).remaining() >= 6
                    &&& block == Macroblock::at(old(self).stream(), old(self).blocks_read() as int)
                    &&& final(self).blocks_read() == old(self).blocks_read() + 1
                },
                Ok(None) => {
                    &&& old(self).remaining() == 0
                    &&& final(self).blocks_read() == old(self).blocks_read()
                },
                Err(e) => {
                    &&& 0 < old(self).remaining() < 6
                    &&& e == DecodeError::TruncatedInput
                    &&& final(self).blocks_read() == old(self).blocks_read()
                },
            },
    {
        proof {
            use_type_invariant(&*self);
        }
        let len: usize = self.source.len();
        let start: usize = BLOCK_BYTES * self.taken;
        let left: usize = len - start;
        if left == 0 {
            Ok(None)
        } else if left < BLOCK_BYTES {
            Err(DecodeError::TruncatedInput)
        } else {
            let block = Macroblock {
                luma: [
                    self.source[start],
                    self.source[start + 1],
                    self.source[start + 2],
                    self.source[start + 3],
                ],
                cb: self.source[start + 4],
                cr: self.source[start + 5],
            };
            self.taken = self.taken + 1;
            Ok(Some(block))
        }
    }
}

} // verus!
