//! Conversion of linear color values to gamma-corrected output bytes.

use vstd::prelude::*;

verus! {

use crate::fx::{ONE, SCALE, s_sqrt, tdiv, fx_sqrt};
use crate::interval::{Interval, s_clamp};
use crate::vec3::Vec3;

/// Largest value a channel may reach before byte scaling, just below
/// one, so that scaling by 256 never reaches 256.
pub const INTENSITY_MAX: i64 = 65470;

/// Specification twin of `linear_to_gamma`: square root of a positive
/// value, zero otherwise.
pub open spec fn s_linear_to_gamma(x: int) -> int {
    if x > 0 {
        s_sqrt(x)
    } else {
        0
    }
}

/// The clamping range for output channels.
pub open spec fn s_intensity() -> Interval {
    Interval { min: 0, max: INTENSITY_MAX }
}

/// Specification twin of the byte each channel becomes: gamma
/// correct, clamp into the intensity range, scale by 256 and
/// truncate.
pub open spec fn s_pixel_byte(x: int) -> int {
    tdiv(256 * s_clamp(s_intensity(), s_linear_to_gamma(x)), SCALE as int)
}

/// Gamma correction of one channel: square root for positive values,
/// zero otherwise.
pub fn linear_to_gamma(linear_component: i64) -> (r: i64)
    ensures
        r as int == s_linear_to_gamma(linear_component as int),
        r >= 0,
{
    if linear_component > 0 {
        return fx_sqrt(linear_component);
    }
    0
}

/// A gamma-corrected channel clamped into the intensity range is
/// small enough that its byte fits in eight bits.
proof fn lemma_byte_range(x: int)
    ensures
        0 <= s_pixel_byte(x) <= 255,
{
    let g = s_linear_to_gamma(x);
    let cl = s_clamp(s_intensity(), g);
    assert(0 <= cl <= INTENSITY_MAX);
    assert(tdiv(256 * cl, SCALE as int) == crate::fx::mag(256 * cl) / 65536);
    vstd::arithmetic::div_mod::lemma_div_is_ordered(256 * cl, 256 * INTENSITY_MAX as int, 65536);
    vstd::arithmetic::div_mod::lemma_div_is_ordered(0, 256 * cl, 65536);
}

/// One output channel as a byte.
fn channel_byte(x: i64) -> (r: u8)
    ensures
        r as int == s_pixel_byte(x as int),
{
    let g = linear_to_gamma(x);
    let intensity = Interval { min: 0, max: INTENSITY_MAX };
    let cl = Interval::clamp(&intensity, g);
    proof {
        lemma_byte_range(x as int);
    }
    let wide: u64 = (cl as u64) * 256;
    let b: u64 = wide / 65536;
    proof {
        assert(wide == crate::fx::mag(256 * (cl as int)));
        assert(b as int == tdiv(256 * (cl as int), SCALE as int));
    }
    b as u8
}

/// The three bytes a pixel color becomes: each channel gamma
/// corrected, clamped to the intensity range, scaled to eight bits
/// and truncated.
pub fn color_bytes(pixel_color: Vec3) -> (r: (u8, u8, u8))
    ensures
        r.0 as int == s_pixel_byte(pixel_color.x as int),
        r.1 as int == s_pixel_byte(pixel_color.y as int),
        r.2 as int == s_pixel_byte(pixel_color.z as int),
{
    (channel_byte(pixel_color.x), channel_byte(pixel_color.y), channel_byte(pixel_color.z))
}

/// The ends of the gamma and clamp pipeline: a zero channel gives
/// byte zero, a full channel gives byte 255, and any negative channel
/// gives byte zero.
pub proof fn lemma_gamma_clamp_edges(x: int)
    ensures
        s_pixel_byte(0) == 0,
        s_pixel_byte(ONE as int) == 255,
        x < 0 ==> s_pixel_byte(x) == 0,
{
    vstd::arithmetic::div_mod::lemma_div_of0(65536);
    crate::fx::lemma_sqrt_floor_unique((ONE as int * SCALE as int) as nat, 65536);
    assert(s_sqrt(ONE as int) == 65536);
    assert(s_clamp(s_intensity(), 65536) == INTENSITY_MAX as int);
    assert(tdiv(256 * INTENSITY_MAX as int, SCALE as int) == crate::fx::mag(
        256 * INTENSITY_MAX as int,
    ) / 65536);
    vstd::arithmetic::div_mod::lemma_fundamental_div_mod_converse(16760320, 65536, 255, 48640);
    assert(16760320int / 65536int == 255int);
}

} // verus!
