use mavica_411::color::{
    BLUE_CB, CHANNEL_MAX, CHROMA_BIAS, GREEN_CB, GREEN_CR, RED_CR, SCALE,
};
use mavica_411::{rec601_fixed, rec601_float};

/// The transform in single-precision floating point, with the saturating
/// cast that clamps and truncates in one step.
fn rec601_in_f32(y: u8, cb: u8, cr: u8) -> (u8, u8, u8) {
    let y = y as f32;
    let cb = cb as f32 - 128.0;
    let cr = cr as f32 - 128.0;

    let r = y + 1.40200 * cr;
    let g = y - 0.34414 * cb - 0.71414 * cr;
    let b = y + 1.77200 * cb;

    (r as u8, g as u8, b as u8)
}

/// Checks, for every chroma pair and every luma sample in `from..=to`, that
/// the two strategies agree with each other and with floating point.
fn sweep_luma(from: u8, to: u8) {
    for y in from..=to {
        for cb in 0..=255u8 {
            for cr in 0..=255u8 {
                let exact = rec601_float(y, cb, cr);
                assert_eq!(rec601_fixed(y, cb, cr), exact, "y={} cb={} cr={}", y, cb, cr);
                assert_eq!(rec601_in_f32(y, cb, cr), exact, "y={} cb={} cr={}", y, cb, cr);
            }
        }
    }
}

/// Ensure Rec. 601 floating point decoding produces the right value
#[test]
fn test_rec601_float() {
    assert_eq!(rec601_float(120, 129, 51), (12, 174, 121));
}

/// Ensure Rec. 601 fixed point decoding produces the right value
#[test]
fn test_rec601_fixed() {
    assert_eq!(rec601_fixed(120, 129, 51), (12, 174, 121));
}

/// Ensure Rec. 601 floating point and fixed decoding both produce the same
/// value
#[test]
fn test_rec601_fixed_float_equal() {
    assert_eq!(rec601_fixed(120, 129, 51), rec601_float(120, 129, 51));
}

#[test]
fn constants_are_the_coefficients_times_the_scale() {
    assert_eq!(SCALE, 100_000);
    assert_eq!(CHROMA_BIAS, 128);
    assert_eq!(CHANNEL_MAX, 255);
    assert_eq!(RED_CR, 140_200);
    assert_eq!(GREEN_CB, 34_414);
    assert_eq!(GREEN_CR, 71_414);
    assert_eq!(BLUE_CB, 177_200);
}

#[test]
fn neutral_chroma_gives_grey() {
    for y in 0..=255u8 {
        assert_eq!(rec601_float(y, 128, 128), (y, y, y));
        assert_eq!(rec601_fixed(y, 128, 128), (y, y, y));
    }
}

#[test]
fn red_channel_follows_cr_only() {
    // r = 100 + 1.402 * 20 = 128.04
    assert_eq!(rec601_float(100, 128, 148).0, 128);
    assert_eq!(rec601_fixed(100, 128, 148).0, 128);
    // r = 100 - 1.402 * 20 = 71.96
    assert_eq!(rec601_float(100, 128, 108).0, 71);
    assert_eq!(rec601_fixed(100, 128, 108).0, 71);
    for cb in 0..=255u8 {
        assert_eq!(rec601_float(100, cb, 148).0, 128);
        assert_eq!(rec601_fixed(100, cb, 148).0, 128);
    }
}

#[test]
fn green_channel_falls_with_both_chroma_samples() {
    // g = 100 - 0.34414 * 20 = 93.1172
    assert_eq!(rec601_float(100, 148, 128).1, 93);
    assert_eq!(rec601_fixed(100, 148, 128).1, 93);
    // g = 100 - 0.71414 * 20 = 85.7172
    assert_eq!(rec601_float(100, 128, 148).1, 85);
    assert_eq!(rec601_fixed(100, 128, 148).1, 85);
    // g = 100 - 0.34414 * 20 - 0.71414 * 20 = 78.8344
    assert_eq!(rec601_float(100, 148, 148).1, 78);
    assert_eq!(rec601_fixed(100, 148, 148).1, 78);
    // g = 100 + 0.34414 * 28 + 0.71414 * 28 = 129.63184
    assert_eq!(rec601_float(100, 100, 100).1, 129);
    assert_eq!(rec601_fixed(100, 100, 100).1, 129);
}

#[test]
fn blue_channel_follows_cb_only() {
    // b = 100 + 1.772 * 20 = 135.44
    assert_eq!(rec601_float(100, 148, 128).2, 135);
    assert_eq!(rec601_fixed(100, 148, 128).2, 135);
    // b = 100 - 1.772 * 20 = 64.56
    assert_eq!(rec601_float(100, 108, 128).2, 64);
    assert_eq!(rec601_fixed(100, 108, 128).2, 64);
    for cr in 0..=255u8 {
        assert_eq!(rec601_float(100, 148, cr).2, 135);
        assert_eq!(rec601_fixed(100, 148, cr).2, 135);
    }
}

#[test]
fn chroma_samples_are_not_interchangeable() {
    assert_eq!(rec601_float(120, 129, 51), (12, 174, 121));
    // r = 120 + 1.402 = 121.402, g = 120 + 26.49878 - 0.71414 = 145.78464,
    // b = 120 - 136.444 = -16.444
    assert_eq!(rec601_float(120, 51, 129), (121, 145, 0));
    assert_eq!(rec601_fixed(120, 51, 129), (121, 145, 0));
}

#[test]
fn channels_below_zero_clamp_to_zero() {
    // r = -179.456, g = -43.70578 + 91.40992 = 47.70414, b = 225.044
    assert_eq!(rec601_float(0, 255, 0), (0, 47, 225));
    assert_eq!(rec601_fixed(0, 255, 0), (0, 47, 225));
    // r = 178.054, g = 44.04992 - 90.69578 = -46.64586, b = -226.816
    assert_eq!(rec601_float(0, 0, 255), (178, 0, 0));
    assert_eq!(rec601_fixed(0, 0, 255), (178, 0, 0));
}

#[test]
fn channels_above_255_clamp_to_255() {
    // r = 433.054, g = 255 - 43.70578 - 90.69578 = 120.59844, b = 480.044
    assert_eq!(rec601_float(255, 255, 255), (255, 120, 255));
    assert_eq!(rec601_fixed(255, 255, 255), (255, 120, 255));
    // r = 75.544, g = 255 + 44.04992 + 91.40992 = 390.45984, b = 28.184
    assert_eq!(rec601_float(255, 0, 0), (75, 255, 28));
    assert_eq!(rec601_fixed(255, 0, 0), (75, 255, 28));
}

#[test]
fn all_zero_sample_is_dark_green() {
    // r = -179.456, g = 44.04992 + 91.40992 = 135.45984, b = -226.816
    assert_eq!(rec601_float(0, 0, 0), (0, 135, 0));
    assert_eq!(rec601_fixed(0, 0, 0), (0, 135, 0));
}

#[test]
fn values_just_below_zero_round_up_to_zero() {
    // r = 1 - 1.402 = -0.402, g = 1 + 0.71414 = 1.71414, b = 1
    assert_eq!(rec601_float(1, 128, 127), (0, 1, 1));
    assert_eq!(rec601_fixed(1, 128, 127), (0, 1, 1));
    // r = 1, g = 1 + 0.34414 = 1.34414, b = 1 - 1.772 = -0.772
    assert_eq!(rec601_float(1, 127, 128), (1, 1, 0));
    assert_eq!(rec601_fixed(1, 127, 128), (1, 1, 0));
}

#[test]
fn values_just_below_255_stay_below() {
    // r = 254 + 1.402 = 255.402, g = 254 - 0.71414 = 253.28586, b = 254
    assert_eq!(rec601_float(254, 128, 129), (255, 253, 254));
    assert_eq!(rec601_fixed(254, 128, 129), (255, 253, 254));
    // r = 253 + 1.402 = 254.402
    assert_eq!(rec601_float(253, 128, 129).0, 254);
    assert_eq!(rec601_fixed(253, 128, 129).0, 254);
}

#[test]
fn strategies_agree_on_dark_samples() {
    sweep_luma(0, 63);
}

#[test]
fn strategies_agree_on_lower_mid_samples() {
    sweep_luma(64, 127);
}

#[test]
fn strategies_agree_on_upper_mid_samples() {
    sweep_luma(128, 191);
}

#[test]
fn strategies_agree_on_bright_samples() {
    sweep_luma(192, 255);
}
