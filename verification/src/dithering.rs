//! Gamma correction with 8-phase ordered dithering.
//!
//! Linear 8-bit channel values are mapped through a 256-entry table computed
//! offline from a gamma = 2.2 response curve: for input `i` the base output is
//! `floor(255 * (i/255)^(1/2.2))` and the dither mask spreads the fractional
//! remainder over 8 "on" phases, so that over 8 consecutive frames the average
//! emitted brightness converges to the true corrected value.

use vstd::prelude::*;

verus! {

/// Base gamma-corrected output for each linear 8-bit input.
pub const GAMMA_VALUE_2_2: [u8; 256] = [
    0, 0, 0, 0, 0, 0, 0, 0, 0, 0, 0, 0, 0, 0, 0, 0,
    0, 0, 0, 0, 0, 1, 1, 1, 1, 1, 1, 1, 1, 2, 2, 2,
    2, 2, 3, 3, 3, 3, 3, 4, 4, 4, 4, 5, 5, 5, 5, 6,
    6, 6, 7, 7, 7, 8, 8, 8, 9, 9, 9, 10, 10, 10, 11, 11,
    12, 12, 13, 13, 13, 14, 14, 15, 15, 16, 16, 17, 17, 18, 18, 19,
    19, 20, 21, 21, 22, 22, 23, 23, 24, 25, 25, 26, 27, 27, 28, 29,
    29, 30, 31, 31, 32, 33, 33, 34, 35, 36, 36, 37, 38, 39, 40, 40,
    41, 42, 43, 44, 45, 45, 46, 47, 48, 49, 50, 51, 52, 53, 54, 55,
    55, 56, 57, 58, 59, 60, 61, 62, 63, 65, 66, 67, 68, 69, 70, 71,
    72, 73, 74, 75, 77, 78, 79, 80, 81, 82, 84, 85, 86, 87, 88, 90,
    91, 92, 93, 95, 96, 97, 99, 100, 101, 103, 104, 105, 107, 108, 109, 111,
    112, 114, 115, 117, 118, 119, 121, 122, 124, 125, 127, 128, 130, 131, 133, 135,
    136, 138, 139, 141, 142, 144, 146, 147, 149, 151, 152, 154, 156, 157, 159, 161,
    162, 164, 166, 168, 169, 171, 173, 175, 176, 178, 180, 182, 184, 186, 187, 189,
    191, 193, 195, 197, 199, 201, 203, 205, 207, 209, 211, 213, 215, 217, 219, 221,
    223, 225, 227, 229, 231, 233, 235, 237, 239, 241, 244, 246, 248, 250, 252, 255,
];

/// 8-phase ordered-dither mask for each linear 8-bit input: a set bit at
/// phase `p` bumps the output by one on sub-frames whose phase is `p`.
pub const GAMMA_DITHER_2_2: [u8; 256] = [
    0, 0, 0, 0, 0, 0, 128, 128, 128, 128, 136, 136, 136, 168, 168, 170,
    234, 234, 238, 254, 255, 0, 128, 136, 168, 170, 234, 254, 255, 128, 136, 170,
    234, 254, 0, 136, 168, 234, 254, 128, 168, 234, 254, 128, 168, 234, 254, 128,
    170, 238, 128, 168, 238, 0, 168, 238, 128, 170, 238, 128, 234, 255, 168, 238,
    128, 234, 0, 170, 254, 168, 254, 136, 238, 136, 238, 136, 238, 136, 254, 168,
    254, 170, 0, 234, 128, 238, 168, 255, 170, 128, 238, 168, 128, 238, 168, 0,
    238, 168, 128, 238, 170, 136, 255, 238, 170, 136, 255, 238, 170, 136, 128, 254,
    238, 170, 168, 136, 128, 254, 238, 234, 234, 170, 168, 136, 136, 128, 128, 0,
    255, 255, 254, 254, 254, 254, 254, 254, 255, 0, 0, 128, 128, 136, 168, 168,
    170, 234, 238, 254, 0, 136, 168, 170, 238, 254, 128, 136, 170, 238, 255, 136,
    170, 238, 255, 136, 170, 254, 128, 170, 254, 128, 170, 254, 136, 234, 255, 168,
    238, 136, 234, 128, 170, 255, 168, 254, 168, 254, 168, 254, 168, 254, 170, 0,
    234, 128, 238, 168, 254, 170, 128, 238, 168, 128, 238, 168, 128, 238, 170, 128,
    254, 234, 168, 128, 254, 234, 168, 136, 255, 238, 234, 170, 136, 128, 255, 254,
    238, 234, 170, 168, 168, 136, 136, 128, 128, 128, 128, 0, 0, 128, 128, 128,
    128, 136, 136, 168, 168, 170, 234, 238, 254, 255, 128, 136, 170, 234, 238, 0,
];

/// The corrected base value for a linear input.
pub open spec fn gamma_value(value: u8) -> u8 {
    GAMMA_VALUE_2_2[value as int]
}

/// The dither mask for a linear input.
pub open spec fn gamma_dither(value: u8) -> u8 {
    GAMMA_DITHER_2_2[value as int]
}

/// The dither phase of a pixel on a frame: frame counter plus pixel index,
/// modulo the 8 sub-frames of the dither pattern.
pub open spec fn dither_phase(frame_number: u32, pixel_index: u32) -> u8 {
    (((frame_number + pixel_index) % 8) as u8)
}

/// Whether the dithered output is bumped by one for this value on this
/// frame and pixel.
pub open spec fn dither_on(value: u8, frame_number: u32, pixel_index: u32) -> bool {
    gamma_dither(value) & (1u8 << dither_phase(frame_number, pixel_index)) != 0
}

/// Increment saturating at the top of the 8-bit range.
pub open spec fn sat_inc(x: u8) -> u8 {
    if x < 255 {
        (x + 1) as u8
    } else {
        255
    }
}

/// The dithered, gamma-corrected output value.
pub open spec fn spec_correct_22(value: u8, frame_number: u32, pixel_index: u32) -> u8 {
    if dither_on(value, frame_number, pixel_index) {
        sat_inc(gamma_value(value))
    } else {
        gamma_value(value)
    }
}

/// Number of set bits in an 8-bit dither mask.
pub open spec fn set_bits8(m: u8) -> int {
    ((m & 1) + ((m >> 1) & 1) + ((m >> 2) & 1) + ((m >> 3) & 1) + ((m >> 4) & 1) + ((m >> 5) & 1)
        + ((m >> 6) & 1) + ((m >> 7) & 1)) as int
}

/// Sum of the dithered outputs of one value over the 8 frames of a dither
/// period, at a fixed pixel index.
pub open spec fn dither_period_sum(value: u8, pixel_index: u32) -> int {
    spec_correct_22(value, 0, pixel_index) + spec_correct_22(value, 1, pixel_index)
        + spec_correct_22(value, 2, pixel_index) + spec_correct_22(value, 3, pixel_index)
        + spec_correct_22(value, 4, pixel_index) + spec_correct_22(value, 5, pixel_index)
        + spec_correct_22(value, 6, pixel_index) + spec_correct_22(value, 7, pixel_index)
}

proof fn lemma_mask_period(m: u8, p: u32)
    by (bit_vector)
    ensures
        (if m & (1u8 << dither_phase(0, p)) != 0 {
            1int
        } else {
            0
        }) + (if m & (1u8 << dither_phase(1, p)) != 0 {
            1int
        } else {
            0
        }) + (if m & (1u8 << dither_phase(2, p)) != 0 {
            1int
        } else {
            0
        }) + (if m & (1u8 << dither_phase(3, p)) != 0 {
            1int
        } else {
            0
        }) + (if m & (1u8 << dither_phase(4, p)) != 0 {
            1int
        } else {
            0
        }) + (if m & (1u8 << dither_phase(5, p)) != 0 {
            1int
        } else {
            0
        }) + (if m & (1u8 << dither_phase(6, p)) != 0 {
            1int
        } else {
            0
        }) + (if m & (1u8 << dither_phase(7, p)) != 0 {
            1int
        } else {
            0
        }) == set_bits8(m),
{
}

/// Dithering is balanced in time: over the 8 frames of one dither period the
/// outputs at a fixed pixel sum to 8 times the corrected base value plus the
/// number of set bits in the dither mask, so the average emitted brightness is
/// the base value plus k/8. At the very top of the range the bump saturates
/// and the base value stands alone.
pub proof fn lemma_dither_balance(value: u8, pixel_index: u32)
    ensures
        dither_period_sum(value, pixel_index) == 8 * gamma_value(value) + (if gamma_value(value)
            < 255 {
            set_bits8(gamma_dither(value))
        } else {
            0int
        }),
{
    lemma_mask_period(gamma_dither(value), pixel_index);
}

/// Bare look-up (no dithering).
pub fn correct_22_no_dither(value: u8) -> (r: u8)
    ensures
        r == gamma_value(value),
{
    GAMMA_VALUE_2_2[value as usize]
}

/// Look-up with 8-phase ordered dithering, balanced across frames.
///
/// `frame_number` is a monotonically increasing frame counter and
/// `pixel_index` decorrelates neighbouring pixels; only their sum modulo 8
/// matters here.
pub fn correct_22(value: u8, frame_number: u32, pixel_index: u32) -> (r: u8)
    ensures
        r == spec_correct_22(value, frame_number, pixel_index),
{
    let base = GAMMA_VALUE_2_2[value as usize];
    let mask = GAMMA_DITHER_2_2[value as usize];
    let fm: u32 = frame_number & 7;
    let pm: u32 = pixel_index & 7;
    assert(fm < 8 && pm < 8) by (bit_vector)
        requires
            fm == frame_number & 7,
            pm == pixel_index & 7,
    ;
    let sum: u32 = fm + pm;
    let phase_wide: u32 = sum & 7;
    assert(phase_wide < 8 && phase_wide as u8 == dither_phase(frame_number, pixel_index))
        by (bit_vector)
        requires
            fm == frame_number & 7,
            pm == pixel_index & 7,
            sum == fm + pm,
            phase_wide == sum & 7,
    ;
    let phase: u8 = phase_wide as u8;
    if mask & (1u8 << phase) != 0 {
        if base < 255 {
            base + 1
        } else {
            255
        }
    } else {
        base
    }
}

} // verus!
