//! Colour encoding: from a summed linear colour to integer channels.
//!
//! The integrator hands colours over in linear, unscaled, summed form;
//! encoding divides by the sample count, applies gamma 2.0 (a square
//! root), clamps each channel just below one, and scales to `0..=255`.

use vstd::prelude::*;
use vstd::arithmetic::div_mod::lemma_div_is_ordered;
use crate::fixed::{fx_div, fx_div_sp, fx_mul, fx_mul_sp, fx_sqrt, fx_sqrt_sp, ONE};
use crate::vec3::{Vector3, V3};

verus! {

/// The clamp ceiling: just below one, so a full channel encodes to 255.
pub const CLAMP_MAX: i64 = 65470;

pub open spec fn clamp_sp(x: int, lo: int, hi: int) -> int {
    if x < lo {
        lo
    } else if x > hi {
        hi
    } else {
        x
    }
}

/// One channel: scale to the per-sample mean, hold negatives at zero,
/// take the gamma square root, clamp, and truncate to `0..=255`.
pub open spec fn encode_channel_sp(c: int, scale: int) -> int {
    let m0 = fx_mul_sp(c, scale);
    let m = if m0 < 0 {
        0
    } else {
        m0
    };
    let g = fx_sqrt_sp(m);
    let cl = clamp_sp(g, 0, CLAMP_MAX as int);
    (256 * cl) / (ONE as int)
}

/// The per-sample scale factor.
pub open spec fn color_scale_sp(samples: int) -> int {
    fx_div_sp(ONE as int, samples * (ONE as int))
}

pub open spec fn encode_color_sp(p: V3, samples: int) -> (int, int, int) {
    let s = color_scale_sp(samples);
    (encode_channel_sp(p.x, s), encode_channel_sp(p.y, s), encode_channel_sp(p.z, s))
}

fn encode_channel(c: i64, scale: i64) -> (r: u8)
    ensures
        r as int == encode_channel_sp(c as int, scale as int),
{
    let m0 = fx_mul(c, scale);
    let m = if m0 < 0 {
        0
    } else {
        m0
    };
    let g = fx_sqrt(m);
    let cl = if g < 0 {
        0
    } else if g > CLAMP_MAX {
        CLAMP_MAX
    } else {
        g
    };
    let out: u64 = (256 * (cl as u64)) / (ONE as u64);
    proof {
        lemma_div_is_ordered(256 * (cl as int), 256 * (CLAMP_MAX as int), ONE as int);
    }
    out as u8
}

/// Encode a summed colour over the given number of samples.
pub fn encode_color(pixel_color: Vector3, samples_per_pixel: u8) -> (r: (u8, u8, u8))
    requires
        samples_per_pixel >= 1,
    ensures
        (r.0 as int, r.1 as int, r.2 as int) == encode_color_sp(
            pixel_color@,
            samples_per_pixel as int,
        ),
{
    let scale = fx_div(ONE, (samples_per_pixel as i64) * ONE);
    (
        encode_channel(pixel_color.x, scale),
        encode_channel(pixel_color.y, scale),
        encode_channel(pixel_color.z, scale),
    )
}

} // verus!
