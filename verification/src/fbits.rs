//! IEEE 754 single-precision scalars as `u32` bit patterns.
//!
//! Scalar payloads (positions, colors, UV rectangles, camera data) cross the
//! host boundary as raw bit patterns and are carried through the backend
//! unchanged; the host's float unit, outside this library, performs the
//! arithmetic that feeds them. Every decision the backend takes on a scalar
//! is a comparison against zero or between two operands, and those are exact
//! bit-level predicates on the patterns, verified here.

use vstd::prelude::*;

verus! {

/// Bit pattern of one, the default UV scale and camera scale.
pub const F32_ONE_BITS: u32 = 0x3F80_0000;

/// Bit pattern of a zero of positive sign.
pub const F32_ZERO_BITS: u32 = 0x0000_0000;

/// The encoded value is a NaN: exponent all ones and a nonzero mantissa.
pub open spec fn f32_bits_is_nan(b: u32) -> bool {
    b & 0x7FFF_FFFF > 0x7F80_0000
}

/// The encoded value is `+0.0` or `-0.0`.
pub open spec fn spec_f32_bits_is_zero(b: u32) -> bool {
    b == 0x0000_0000 || b == 0x8000_0000
}

/// The sign bit is set (negative values, `-0.0` and negative NaNs).
pub open spec fn f32_bits_sign(b: u32) -> bool {
    b >= 0x8000_0000
}

/// The encoded value compares `> 0.0`: positive, nonzero and not NaN.
/// Those are exactly the patterns `0x0000_0001 ..= 0x7F80_0000`.
pub open spec fn spec_f32_bits_gt_zero(b: u32) -> bool {
    0 < b && b <= 0x7F80_0000
}

/// IEEE `a <= b` on bit patterns: false whenever either side is NaN,
/// true for any two zeros, and otherwise sign-magnitude order.
pub open spec fn spec_f32_bits_le(a: u32, b: u32) -> bool {
    &&& !f32_bits_is_nan(a)
    &&& !f32_bits_is_nan(b)
    &&& if spec_f32_bits_is_zero(a) && spec_f32_bits_is_zero(b) {
        true
    } else if f32_bits_sign(a) && f32_bits_sign(b) {
        a >= b
    } else if !f32_bits_sign(a) && !f32_bits_sign(b) {
        a <= b
    } else {
        f32_bits_sign(a)
    }
}

/// Decide whether the encoded value is a zero of either sign.
pub fn f32_bits_is_zero(b: u32) -> (r: bool)
    ensures
        r == spec_f32_bits_is_zero(b),
{
    proof {
        assert((b & 0x7FFF_FFFF == 0) == (b == 0x0000_0000 || b == 0x8000_0000u32))
            by (bit_vector);
    }
    b & 0x7FFF_FFFF == 0
}

/// Decide whether the encoded value compares `> 0.0`.
pub fn f32_bits_gt_zero(b: u32) -> (r: bool)
    ensures
        r == spec_f32_bits_gt_zero(b),
{
    0 < b && b <= 0x7F80_0000
}

/// Decide IEEE `a <= b` on bit patterns.
pub fn f32_bits_le(a: u32, b: u32) -> (r: bool)
    ensures
        r == spec_f32_bits_le(a, b),
{
    proof {
        assert((a & 0x7FFF_FFFF == 0) == (a == 0x0000_0000 || a == 0x8000_0000u32))
            by (bit_vector);
        assert((b & 0x7FFF_FFFF == 0) == (b == 0x0000_0000 || b == 0x8000_0000u32))
            by (bit_vector);
    }
    if a & 0x7FFF_FFFF > 0x7F80_0000 || b & 0x7FFF_FFFF > 0x7F80_0000 {
        false
    } else if a & 0x7FFF_FFFF == 0 && b & 0x7FFF_FFFF == 0 {
        true
    } else if a >= 0x8000_0000 && b >= 0x8000_0000 {
        a >= b
    } else if a < 0x8000_0000 && b < 0x8000_0000 {
        a <= b
    } else {
        a >= 0x8000_0000
    }
}

/// The pattern of the negated value: IEEE negation flips the sign bit.
pub open spec fn spec_f32_bits_neg(b: u32) -> u32 {
    b ^ 0x8000_0000
}

/// Negate an encoded value by flipping its sign bit.
pub fn f32_bits_neg(b: u32) -> (r: u32)
    ensures
        r == spec_f32_bits_neg(b),
{
    b ^ 0x8000_0000
}

/// An RGBA color as four scalar bit patterns.
#[derive(Clone, Copy, Debug, PartialEq, Eq, Structural)]
pub struct ColorBits {
    pub r: u32,
    pub g: u32,
    pub b: u32,
    pub a: u32,
}

/// The four little-endian bytes of a 32-bit word.
pub open spec fn u32_le_bytes(w: u32) -> Seq<u8> {
    seq![(w & 0xFF) as u8, ((w >> 8) & 0xFF) as u8, ((w >> 16) & 0xFF) as u8, (
    (w >> 24) & 0xFF) as u8]
}

/// Append the little-endian bytes of `w` to `buf`.
pub fn push_u32_le(buf: &mut Vec<u8>, w: u32)
    ensures
        final(buf)@ == old(buf)@ + u32_le_bytes(w),
{
    proof {
        assert(w & 0xFF < 256 && (w >> 8) & 0xFF < 256 && (w >> 16) & 0xFF < 256 && (w >> 24)
            & 0xFF < 256) by (bit_vector);
    }
    buf.push((w & 0xFF) as u8);
    buf.push(((w >> 8) & 0xFF) as u8);
    buf.push(((w >> 16) & 0xFF) as u8);
    buf.push(((w >> 24) & 0xFF) as u8);
    proof {
        assert(buf@ =~= old(buf)@ + u32_le_bytes(w));
    }
}

} // verus!
