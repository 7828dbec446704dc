//! Rec. 601 conversion of one luma sample and one chroma pair to an RGB pixel.
//!
//! With the chroma samples freed of their bias of 128, the transform reads
//!
//! ```text
//! r = y                + 1.40200 cr
//! g = y - 0.34414 cb   - 0.71414 cr
//! b = y + 1.77200 cb
//! ```
//!
//! and each channel is then brought into `0..=255`. The coefficients have five
//! decimals, so `SCALE` times a channel is a whole number. The contracts here
//! speak of that whole number, which makes them exact: no rounding of a machine
//! float enters anywhere.
//!
//! Two strategies finish a channel. One clamps the real value and then drops
//! its fraction; the other divides in integers, rounding toward zero, and then
//! clamps. [`lemma_strategies_agree`] proves that they give the same pixel for
//! every input.

use vstd::prelude::*;

verus! {

/// The factor that turns every coefficient of the transform into an integer.
pub const SCALE: i32 = 100_000;

/// The value of a chroma sample that shifts no colour.
pub const CHROMA_BIAS: i32 = 128;

/// The largest value of a channel.
pub const CHANNEL_MAX: i32 = 255;

/// `SCALE` times the weight of Cr in the red channel.
pub const RED_CR: i32 = 140_200;

/// `SCALE` times the weight of Cb in the green channel, which it lowers.
pub const GREEN_CB: i32 = 34_414;

/// `SCALE` times the weight of Cr in the green channel, which it lowers.
pub const GREEN_CR: i32 = 71_414;

/// `SCALE` times the weight of Cb in the blue channel.
pub const BLUE_CB: i32 = 177_200;

/// A chroma sample without its bias: a value in `-128..=127`.
pub open spec fn debias(c: u8) -> int {
    c - CHROMA_BIAS
}

/// `SCALE` times the red channel before clamping.
pub open spec fn red_scaled(y: u8, cr: u8) -> int {
    SCALE * y + RED_CR * debias(cr)
}

/// `SCALE` times the green channel before clamping.
pub open spec fn green_scaled(y: u8, cb: u8, cr: u8) -> int {
    SCALE * y - GREEN_CB * debias(cb) - GREEN_CR * debias(cr)
}

/// `SCALE` times the blue channel before clamping.
pub open spec fn blue_scaled(y: u8, cb: u8) -> int {
    SCALE * y + BLUE_CB * debias(cb)
}

/// The channel whose real value is `n / SCALE`, clamped to `[0, 255]` as a
/// real number and then cut down to its integer part.
pub open spec fn clamp_then_truncate(n: int) -> int {
    if n < 0 {
        0
    } else if n > CHANNEL_MAX * SCALE {
        CHANNEL_MAX as int
    } else {
        n / (SCALE as int)
    }
}

/// `n / d` rounded toward zero, as machine integers divide.
pub open spec fn div_toward_zero(n: int, d: int) -> int
    recommends
        d > 0,
{
    if n >= 0 {
        n / d
    } else {
        -((-n) / d)
    }
}

/// A whole number brought into `0..=255`.
pub open spec fn clamp_channel(q: int) -> int {
    if q < 0 {
        0
    } else if q > CHANNEL_MAX {
        CHANNEL_MAX as int
    } else {
        q
    }
}

/// The channel whose real value is `n / SCALE`, divided out in integers and
/// then clamped.
pub open spec fn truncate_then_clamp(n: int) -> int {
    clamp_channel(div_toward_zero(n, SCALE as int))
}

/// The pixel of the transform as it is defined: every channel computed as a
/// real number, clamped on its own, then truncated.
pub open spec fn rec601_exact(y: u8, cb: u8, cr: u8) -> (u8, u8, u8) {
    (
        clamp_then_truncate(red_scaled(y, cr)) as u8,
        clamp_then_truncate(green_scaled(y, cb, cr)) as u8,
        clamp_then_truncate(blue_scaled(y, cb)) as u8,
    )
}

/// The pixel of the fixed-point strategy: every channel summed up in integers
/// scaled by `SCALE`, divided by `SCALE`, then clamped on its own.
pub open spec fn rec601_scaled(y: u8, cb: u8, cr: u8) -> (u8, u8, u8) {
    (
        truncate_then_clamp(red_scaled(y, cr)) as u8,
        truncate_then_clamp(green_scaled(y, cb, cr)) as u8,
        truncate_then_clamp(blue_scaled(y, cb)) as u8,
    )
}

/// Channel `c` of a pixel: 0 is red, 1 is green, anything else is blue.
pub open spec fn channel(rgb: (u8, u8, u8), c: int) -> u8 {
    if c == 0 {
        rgb.0
    } else if c == 1 {
        rgb.1
    } else {
        rgb.2
    }
}

/// Clamping before or after the fraction is dropped makes no difference.
pub proof fn lemma_clamp_order(n: int)
    ensures
        clamp_then_truncate(n) == truncate_then_clamp(n),
        0 <= clamp_then_truncate(n) <= CHANNEL_MAX,
{
}

/// The two strategies give the same pixel for every luma sample and every
/// chroma pair.
pub proof fn lemma_strategies_agree(y: u8, cb: u8, cr: u8)
    ensures
        rec601_exact(y, cb, cr) == rec601_scaled(y, cb, cr),
{
    lemma_clamp_order(red_scaled(y, cr));
    lemma_clamp_order(green_scaled(y, cb, cr));
    lemma_clamp_order(blue_scaled(y, cb));
}

/// A channel whose value before clamping lies below 0 comes out as exactly 0,
/// and one that lies above 255 as exactly 255, under either strategy. The
/// channels are clamped one by one: none looks at another.
pub proof fn lemma_out_of_range_clamps(y: u8, cb: u8, cr: u8)
    ensures
        red_scaled(y, cr) < 0 ==> rec601_exact(y, cb, cr).0 == 0,
        red_scaled(y, cr) > CHANNEL_MAX * SCALE ==> rec601_exact(y, cb, cr).0 == CHANNEL_MAX,
        green_scaled(y, cb, cr) < 0 ==> rec601_exact(y, cb, cr).1 == 0,
        green_scaled(y, cb, cr) > CHANNEL_MAX * SCALE ==> rec601_exact(y, cb, cr).1 == CHANNEL_MAX,
        blue_scaled(y, cb) < 0 ==> rec601_exact(y, cb, cr).2 == 0,
        blue_scaled(y, cb) > CHANNEL_MAX * SCALE ==> rec601_exact(y, cb, cr).2 == CHANNEL_MAX,
        rec601_scaled(y, cb, cr) == rec601_exact(y, cb, cr),
{
    lemma_strategies_agree(y, cb, cr);
}

/// Finishes a channel by clamping first: `n` is `SCALE` times its real value.
fn clamp_first(n: i32) -> (c: u8)
    ensures
        c == clamp_then_truncate(n as int),
{
    if n < 0 {
        0
    } else if n > CHANNEL_MAX * SCALE {
        255
    } else {
        (n / SCALE) as u8
    }
}

/// Finishes a channel by dividing first: `n` is `SCALE` times its real value.
fn divide_first(n: i32) -> (c: u8)
    ensures
        c == truncate_then_clamp(n as int),
{
    let q: i32 = n / SCALE;
    if q < 0 {
        0
    } else if q > CHANNEL_MAX {
        255
    } else {
        q as u8
    }
}

/// Converts one sample by the transform as it is defined over the reals:
/// each channel is clamped to `[0, 255]` and only then loses its fraction.
///
/// The real value is held exactly, as its numerator over `SCALE`, so the
/// result is the same on every machine. It is also the pixel that
/// [`rec601_fixed`] returns.
pub fn rec601_float(y: u8, cb: u8, cr: u8) -> (rgb: (u8, u8, u8))
    ensures
        rgb == rec601_exact(y, cb, cr),
        rgb == rec601_scaled(y, cb, cr),
{
    let luma: i32 = y as i32 * SCALE;
    let blue_shift: i32 = cb as i32 - CHROMA_BIAS;
    let red_shift: i32 = cr as i32 - CHROMA_BIAS;

    let r: u8 = clamp_first(luma + RED_CR * red_shift);
    let g: u8 = clamp_first(luma - GREEN_CB * blue_shift - GREEN_CR * red_shift);
    let b: u8 = clamp_first(luma + BLUE_CB * blue_shift);

    proof {
        lemma_strategies_agree(y, cb, cr);
    }
    (r, g, b)
}

/// Converts one sample in fixed-point arithmetic: each channel is summed up
/// in integers scaled by `SCALE`, divided by `SCALE` and then clamped.
///
/// It is also the pixel that [`rec601_float`] returns.
pub fn rec601_fixed(y: u8, cb: u8, cr: u8) -> (rgb: (u8, u8, u8))
    ensures
        rgb == rec601_scaled(y, cb, cr),
        rgb == rec601_exact(y, cb, cr),
{
    let luma: i32 = y as i32 * SCALE;
    let blue_shift: i32 = cb as i32 - CHROMA_BIAS;
    let red_shift: i32 = cr as i32 - CHROMA_BIAS;

    let r: u8 = divide_first(luma + RED_CR * red_shift);
    let g: u8 = divide_first(luma - GREEN_CB * blue_shift - GREEN_CR * red_shift);
    let b: u8 = divide_first(luma + BLUE_CB * blue_shift);

    proof {
        lemma_strategies_agree(y, cb, cr);
    }
    (r, g, b)
}

} // verus!
