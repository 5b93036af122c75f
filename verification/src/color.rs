//! From colours to bytes in a pixel buffer.

use vstd::prelude::*;
use vstd::arithmetic::power2::pow2;
use vstd::arithmetic::power2::lemma2_to64;
use vstd::arithmetic::power2::lemma_pow2_strictly_increases;
use vstd::arithmetic::div_mod::lemma_basic_div;
use vstd::arithmetic::div_mod::lemma_div_is_ordered_by_denominator;
use vstd::bits::lemma_u32_shr_is_div;
use crate::interval::Interval;
use crate::scalar::Scalar;
use crate::scalar::HIDDEN_BIT;
use crate::vec3::Color;

verus! {

/// The bit pattern of the brightest intensity that is written, about `0.999`.
pub const BRIGHTEST_BITS: u32 = 0x3f7f_be77;

/// The range that a channel is clamped to before it becomes a byte.
pub open spec fn spec_intensity() -> Interval {
    Interval { min: Scalar { bits: 0 }, max: Scalar { bits: BRIGHTEST_BITS } }
}

#[verifier::when_used_as_spec(spec_intensity)]
pub fn intensity() -> (r: Interval)
    ensures
        r == spec_intensity(),
{
    Interval { min: Scalar { bits: 0 }, max: Scalar { bits: BRIGHTEST_BITS } }
}

/// The byte of a channel: the channel is clamped to [`intensity`], and the
/// byte is the integer part of 256 times what is left. A NaN gives 0.
pub open spec fn channel_byte(x: Scalar) -> int {
    let c = spec_intensity().saturated(x);
    if c.nan() || c.sign() {
        0
    } else {
        c.floor_scaled(8)
    }
}

/// Every channel has a byte.
pub proof fn channel_byte_fits(x: Scalar)
    ensures
        0 <= channel_byte(x) < 256,
{
    let c = spec_intensity().saturated(x);
    if !(c.nan() || c.sign()) {
        assert(c.magnitude() <= BRIGHTEST_BITS);
        assert(c.biased_exponent() <= 126);
        let shift = (-(c.exponent() + 8)) as nat;
        assert(shift >= 16);
        lemma2_to64();
        if shift > 16 {
            lemma_pow2_strictly_increases(16, shift);
        }
        assert(pow2(shift) >= 0x1_0000);
        assert(0 <= c.significand() < 0x100_0000);
        lemma_div_is_ordered_by_denominator(c.significand(), 0x1_0000, pow2(shift) as int);
        assert(c.significand() / 0x1_0000 < 256);
        assert(c.significand() / (pow2(shift) as int) >= 0) by (nonlinear_arith)
            requires
                c.significand() >= 0,
                pow2(shift) > 0,
        ;
    }
}

/// The byte of a number is the integer part of 256 times what it is clamped
/// to: the clamped number is a multiple of `2^-149`, and the byte is that
/// multiple over `2^141`, rounded down.
pub proof fn channel_byte_is_the_floor(x: Scalar)
    requires
        !x.nan(),
    ensures
        channel_byte(x) == spec_intensity().saturated(x).in_units() / (pow2(141) as int),
{
    let c = spec_intensity().saturated(x);
    assert(c.magnitude() <= BRIGHTEST_BITS);
    if c.sign() {
        assert(c.magnitude() == 0);
        assert(c.significand() == 0);
        assert(c.in_units() == 0) by (nonlinear_arith)
            requires
                c.in_units() == -(c.significand() * pow2((c.exponent() + 149) as nat)),
                c.significand() == 0,
        ;
        vstd::arithmetic::power2::lemma_pow2_pos(141);
    } else {
        c.floor_scaled_is_of_the_number(8);
    }
}

/// Turns a channel into its byte.
pub fn quantize(x: Scalar) -> (b: u8)
    ensures
        b == channel_byte(x),
{
    let c = intensity().clamp(x);
    if c.is_nan() || c.is_sign_negative() {
        return 0;
    }
    let m: u32 = c.to_bits();
    let e: u32 = m / HIDDEN_BIT;
    let fraction: u32 = m % HIDDEN_BIT;
    let significand: u32 = if e == 0 {
        fraction
    } else {
        HIDDEN_BIT + fraction
    };
    let shift: u32 = if e == 0 {
        141
    } else {
        142 - e
    };
    proof {
        channel_byte_fits(x);
        assert(c.significand() == significand);
        assert(-(c.exponent() + 8) == shift);
        lemma2_to64();
    }
    if shift >= 24 {
        proof {
            if shift > 24 {
                lemma_pow2_strictly_increases(24, shift as nat);
            }
            lemma_basic_div(significand as int, pow2(shift as nat) as int);
        }
        0
    } else {
        proof {
            lemma_u32_shr_is_div(significand, shift);
        }
        (significand >> shift) as u8
    }
}

/// Where the pixel in column `x` of row `y` starts in a buffer whose rows
/// lie `pitch` bytes apart.
pub open spec fn pixel_offset(pitch: int, x: int, y: int) -> int {
    y * pitch + x * 3
}

/// The buffer after the three bytes of one pixel are written at `offset`:
/// red, green and blue, in that order.
pub open spec fn with_pixel(buffer: Seq<u8>, offset: int, color: Color) -> Seq<u8> {
    buffer.update(offset, channel_byte(color.x) as u8).update(
        offset + 1,
        channel_byte(color.y) as u8,
    ).update(offset + 2, channel_byte(color.z) as u8)
}

/// Writes one pixel. The colour is the finished one: averaged over its
/// samples and gamma-corrected. Nothing else in the buffer changes.
pub fn writecolor(buffer: &mut [u8], pitch: usize, x: u32, y: u32, pixel_color: Color)
    requires
        pixel_offset(pitch as int, x as int, y as int) + 3 <= old(buffer)@.len(),
    ensures
        final(buffer)@ == with_pixel(
            old(buffer)@,
            pixel_offset(pitch as int, x as int, y as int),
            pixel_color,
        ),
{
    let len: usize = buffer.len();
    assert(0 <= y * pitch) by (nonlinear_arith);
    assert(y * pitch + x * 3 + 3 <= len);
    let offset: usize = y as usize * pitch + x as usize * 3;
    buffer[offset] = quantize(pixel_color.x);
    buffer[offset + 1] = quantize(pixel_color.y);
    buffer[offset + 2] = quantize(pixel_color.z);
}

} // verus!
