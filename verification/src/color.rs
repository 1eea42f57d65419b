//! Linear colours and the text in which an image is written.

use crate::interval::{self, Interval};
use crate::ppm::{decimal, push_decimal};
use crate::scalar::{Scalar, ZERO};
use crate::vec3::Vec3;
use vstd::prelude::*;

verus! {

/// A vector used as a linear colour: red, green and blue.
pub type Color = Vec3;

/// The colour with the given channels.
pub fn make_color(r: Scalar, g: Scalar, b: Scalar) -> (c: Color)
    ensures
        c == Vec3(r, g, b),
{
    Vec3(r, g, b)
}

/// The pattern of 0.999, the largest intensity that is written.
pub const INTENSITY_MAX: u64 = 0x3FEF_F7CE_D916_872B;

/// The range to which a channel is held before it is written: from 0 to
/// 0.999.
pub open spec fn intensity() -> Interval {
    Interval { min: Scalar { bits: ZERO }, max: Scalar { bits: INTENSITY_MAX } }
}

/// The level at which a channel is written: the channel is held to the
/// range from 0 to 0.999, multiplied by 256 and rounded toward zero. A NaN
/// is written as 0.
pub open spec fn level(channel: Scalar) -> int {
    intensity().clamp(channel).truncated(8)
}

/// The line that `write_color` gives for a pixel: the levels of its three
/// channels in decimal, with a space between them and a line feed behind
/// them.
pub open spec fn color_text(pixel: Color) -> Seq<u8> {
    decimal(level(pixel.0)) + seq![32u8] + decimal(level(pixel.1)) + seq![32u8] + decimal(
        level(pixel.2),
    ) + seq![10u8]
}

/// The level from 0 to 255 at which a channel is written.
pub fn quantize(channel: Scalar) -> (r: i32)
    ensures
        r == level(channel),
        0 <= r <= 255,
{
    let range = interval::new(Scalar::from_bits(ZERO), Scalar::from_bits(INTENSITY_MAX));
    let held = range.clamp(channel);
    proof {
        lemma_level_is_a_byte(channel);
    }
    held.scaled_to_i32(8)
}

/// The line of a plain PPM image for a pixel whose channels are already
/// averaged over its samples and gamma-corrected.
pub fn write_color(pixel_color: Color) -> (r: Vec<u8>)
    ensures
        r@ == color_text(pixel_color),
{
    let mut out: Vec<u8> = Vec::new();
    push_decimal(quantize(pixel_color.x()), &mut out);
    out.push(32u8);
    push_decimal(quantize(pixel_color.y()), &mut out);
    out.push(32u8);
    push_decimal(quantize(pixel_color.z()), &mut out);
    out.push(10u8);
    assert(out@ =~= color_text(pixel_color));
    out
}

/// Every channel is written at a level from 0 to 255, whatever it holds.
pub proof fn lemma_level_is_a_byte(channel: Scalar)
    ensures
        0 <= level(channel) <= 255,
{
    let held = intensity().clamp(channel);
    if !held.is_nan() {
        assert(held.magnitude() <= INTENSITY_MAX);
        assert(held.exponent() <= 1022);
    }
}

} // verus!
