//! Order and classification of single-precision numbers given by their bits.
//!
//! A 32-bit IEEE 754 number is stored as sign, exponent and fraction, from the
//! highest bit down. Its numerical order can therefore be read off the bits:
//! two numbers of one sign compare as the integers that hold their other 31
//! bits, and both zeros have magnitude zero.

use vstd::prelude::*;

verus! {

/// Bits of the number one.
pub const ONE_BITS: u32 = 0x3F80_0000;

/// Bits of positive infinity.
pub const INFINITY_BITS: u32 = 0x7F80_0000;

/// Bits of negative infinity.
pub const NEGATIVE_INFINITY_BITS: u32 = 0xFF80_0000;

/// The lowest pattern whose sign bit is set; it is the negative zero.
pub const SIGN_BIT: u32 = 0x8000_0000;

/// Whether the sign bit is set.
pub open spec fn spec_is_negative(bits: u32) -> bool {
    bits >= SIGN_BIT
}

/// The exponent and fraction bits, without the sign.
pub open spec fn spec_magnitude(bits: u32) -> int {
    if spec_is_negative(bits) {
        bits - SIGN_BIT
    } else {
        bits as int
    }
}

/// Whether the pattern is not a number.
pub open spec fn spec_is_nan(bits: u32) -> bool {
    spec_magnitude(bits) > INFINITY_BITS
}

/// Whether the pattern is one of the two infinities.
pub open spec fn spec_is_infinite(bits: u32) -> bool {
    spec_magnitude(bits) == INFINITY_BITS
}

/// Whether the pattern is neither an infinity nor "not a number".
pub open spec fn spec_is_finite(bits: u32) -> bool {
    spec_magnitude(bits) < INFINITY_BITS
}

/// An integer that orders numbers as their values do; both zeros have key zero.
pub open spec fn key(bits: u32) -> int {
    if spec_is_negative(bits) {
        -spec_magnitude(bits)
    } else {
        spec_magnitude(bits)
    }
}

/// `left < right` on the numbers; false when either is not a number.
pub open spec fn spec_less(left: u32, right: u32) -> bool {
    !spec_is_nan(left) && !spec_is_nan(right) && key(left) < key(right)
}

/// `left <= right` on the numbers; false when either is not a number.
pub open spec fn spec_at_most(left: u32, right: u32) -> bool {
    !spec_is_nan(left) && !spec_is_nan(right) && key(left) <= key(right)
}

/// `left == right` on the numbers; false when either is not a number.
pub open spec fn spec_same(left: u32, right: u32) -> bool {
    !spec_is_nan(left) && !spec_is_nan(right) && key(left) == key(right)
}

/// An integer that orders all patterns totally: negative before positive zero,
/// and patterns that are no number outside the infinities.
pub open spec fn total_key(bits: u32) -> int {
    if spec_is_negative(bits) {
        -spec_magnitude(bits) - 1
    } else {
        spec_magnitude(bits)
    }
}

/// Whether the number is finite and lies between zero and one, both included.
pub open spec fn spec_in_unit(bits: u32) -> bool {
    spec_is_finite(bits) && 0 <= key(bits) <= ONE_BITS
}

/// Whether the sign bit is set.
pub fn is_negative(bits: u32) -> (r: bool)
    ensures
        r == spec_is_negative(bits),
{
    bits >= SIGN_BIT
}

fn magnitude(bits: u32) -> (r: u32)
    ensures
        r == spec_magnitude(bits),
{
    if bits >= SIGN_BIT {
        bits - SIGN_BIT
    } else {
        bits
    }
}

/// Whether the pattern is not a number.
pub fn is_nan(bits: u32) -> (r: bool)
    ensures
        r == spec_is_nan(bits),
{
    magnitude(bits) > INFINITY_BITS
}

/// Whether the pattern is one of the two infinities.
pub fn is_infinite(bits: u32) -> (r: bool)
    ensures
        r == spec_is_infinite(bits),
{
    magnitude(bits) == INFINITY_BITS
}

/// Whether the pattern is neither an infinity nor "not a number".
pub fn is_finite(bits: u32) -> (r: bool)
    ensures
        r == spec_is_finite(bits),
{
    magnitude(bits) < INFINITY_BITS
}

fn order_key(bits: u32) -> (r: i64)
    ensures
        r == key(bits),
{
    if bits >= SIGN_BIT {
        -((bits - SIGN_BIT) as i64)
    } else {
        bits as i64
    }
}

/// `left < right` on the numbers; false when either is not a number.
pub fn less(left: u32, right: u32) -> (r: bool)
    ensures
        r == spec_less(left, right),
{
    !is_nan(left) && !is_nan(right) && order_key(left) < order_key(right)
}

/// `left <= right` on the numbers; false when either is not a number.
pub fn at_most(left: u32, right: u32) -> (r: bool)
    ensures
        r == spec_at_most(left, right),
{
    !is_nan(left) && !is_nan(right) && order_key(left) <= order_key(right)
}

/// `left == right` on the numbers; false when either is not a number.
pub fn same(left: u32, right: u32) -> (r: bool)
    ensures
        r == spec_same(left, right),
{
    !is_nan(left) && !is_nan(right) && order_key(left) == order_key(right)
}

/// Whether `left` stands before `right` in the total order of all patterns.
pub fn total_less(left: u32, right: u32) -> (r: bool)
    ensures
        r == (total_key(left) < total_key(right)),
{
    if left >= SIGN_BIT {
        if right >= SIGN_BIT {
            left > right
        } else {
            true
        }
    } else if right >= SIGN_BIT {
        false
    } else {
        left < right
    }
}

/// Whether the number is finite and lies between zero and one, both included.
pub fn in_unit(bits: u32) -> (r: bool)
    ensures
        r == spec_in_unit(bits),
{
    bits <= ONE_BITS || bits == SIGN_BIT
}

/// The smaller of two numbers; a pattern that is no number gives way to the
/// other.
pub open spec fn spec_lesser(left: u32, right: u32) -> u32 {
    if spec_is_nan(left) || spec_less(right, left) {
        right
    } else {
        left
    }
}

/// The greater of two numbers; a pattern that is no number gives way to the
/// other.
pub open spec fn spec_greater(left: u32, right: u32) -> u32 {
    if spec_is_nan(left) || spec_less(left, right) {
        right
    } else {
        left
    }
}

/// The smaller of two numbers; a pattern that is no number gives way to the
/// other.
pub fn lesser(left: u32, right: u32) -> (r: u32)
    ensures
        r == spec_lesser(left, right),
{
    if is_nan(left) || less(right, left) {
        right
    } else {
        left
    }
}

/// The greater of two numbers; a pattern that is no number gives way to the
/// other.
pub fn greater(left: u32, right: u32) -> (r: u32)
    ensures
        r == spec_greater(left, right),
{
    if is_nan(left) || less(left, right) {
        right
    } else {
        left
    }
}

/// Numbers are ordered totally once "not a number" is left out.
pub proof fn order_is_total(left: u32, right: u32)
    requires
        !spec_is_nan(left),
        !spec_is_nan(right),
    ensures
        spec_less(left, right) || spec_same(left, right) || spec_less(right, left),
        spec_at_most(left, right) <==> !spec_less(right, left),
{
}

/// The total order agrees with the numerical order wherever the two numbers
/// differ.
pub proof fn total_order_refines_numerical_order(left: u32, right: u32)
    requires
        spec_less(left, right),
    ensures
        total_key(left) < total_key(right),
{
}

/// How many binary places the quotient `value / 255` is rounded to in single
/// precision; its leading digit then is the 24th from the right.
pub open spec fn byte_fraction_places(value: u8) -> int {
    if value >= 128 {
        24
    } else if value >= 64 {
        25
    } else if value >= 32 {
        26
    } else if value >= 16 {
        27
    } else if value >= 8 {
        28
    } else if value >= 4 {
        29
    } else if value >= 2 {
        30
    } else {
        31
    }
}

/// Two to the number of binary places.
pub open spec fn byte_fraction_scale(value: u8) -> int {
    if value >= 128 {
        0x100_0000
    } else if value >= 64 {
        0x200_0000
    } else if value >= 32 {
        0x400_0000
    } else if value >= 16 {
        0x800_0000
    } else if value >= 8 {
        0x1000_0000
    } else if value >= 4 {
        0x2000_0000
    } else if value >= 2 {
        0x4000_0000
    } else {
        0x8000_0000
    }
}

/// Whether the bits are those of `value / 255`, rounded to the nearest number in
/// single precision: a significand of 24 digits over the scale, no further than
/// half a digit from the quotient.
pub open spec fn is_byte_fraction(bits: u32, value: u8) -> bool {
    if value == 0 {
        bits == 0
    } else {
        let significand = bits - (149 - byte_fraction_places(value)) * 0x80_0000;
        &&& 0x80_0000 <= significand <= 0x100_0000
        &&& -255 < 2 * (255 * significand - value * byte_fraction_scale(value)) < 255
    }
}

/// The bits of `value / 255`, rounded to the nearest number in single precision.
pub fn byte_fraction(value: u8) -> (r: u32)
    ensures
        is_byte_fraction(r, value),
        spec_in_unit(r),
{
    if value == 0 {
        return 0;
    }
    let wide: u64 = value as u64;
    if value >= 128 {
        (125 * 0x80_0000 + (wide * 0x100_0000 + 127) / 255) as u32
    } else if value >= 64 {
        (124 * 0x80_0000 + (wide * 0x200_0000 + 127) / 255) as u32
    } else if value >= 32 {
        (123 * 0x80_0000 + (wide * 0x400_0000 + 127) / 255) as u32
    } else if value >= 16 {
        (122 * 0x80_0000 + (wide * 0x800_0000 + 127) / 255) as u32
    } else if value >= 8 {
        (121 * 0x80_0000 + (wide * 0x1000_0000 + 127) / 255) as u32
    } else if value >= 4 {
        (120 * 0x80_0000 + (wide * 0x2000_0000 + 127) / 255) as u32
    } else if value >= 2 {
        (119 * 0x80_0000 + (wide * 0x4000_0000 + 127) / 255) as u32
    } else {
        (118 * 0x80_0000 + (wide * 0x8000_0000 + 127) / 255) as u32
    }
}

/// The fraction of a byte is determined by the byte, and greater for a greater
/// byte.
pub proof fn byte_fraction_keeps_order(low: u8, high: u8, low_bits: u32, high_bits: u32)
    requires
        is_byte_fraction(low_bits, low),
        is_byte_fraction(high_bits, high),
    ensures
        low == high ==> low_bits == high_bits,
        low < high ==> key(low_bits) < key(high_bits),
        high == 255 ==> high_bits == ONE_BITS,
{
}

/// Numbers with a clear sign bit compare as their bits do, those with it set the other way
/// round, and any of the latter is below any of the former but for the two zeros.
pub proof fn numbers_compare_by_their_bits(left: u32, right: u32)
    ensures
        left <= 0x7F80_0000 && right <= 0x7F80_0000 ==> (spec_less(left, right) <==> left < right)
            && (spec_at_most(left, right) <==> left <= right) && (spec_same(left, right)
            <==> left == right),
        0x8000_0000 <= left <= 0xFF80_0000 && 0x8000_0000 <= right <= 0xFF80_0000 ==> (spec_less(
            left,
            right,
        ) <==> left > right) && (spec_at_most(left, right) <==> left >= right) && (spec_same(
            left,
            right,
        ) <==> left == right),
        0x8000_0000 <= left <= 0xFF80_0000 && right <= 0x7F80_0000 ==> spec_at_most(left, right)
            && !spec_less(right, left) && (spec_less(left, right) <==> !(left == 0x8000_0000
            && right == 0)) && (spec_same(left, right) <==> left == 0x8000_0000 && right == 0),
{
}

/// What is no number compares with nothing: it is neither below, nor above, nor the same
/// as anything, itself not excepted.
pub proof fn odd_bits_compare_with_nothing(odd: u32, other: u32)
    requires
        0x7F80_0000 < odd < 0x8000_0000 || 0xFF80_0000 < odd,
    ensures
        !spec_is_finite(odd),
        !spec_less(odd, other) && !spec_less(other, odd),
        !spec_at_most(odd, other) && !spec_at_most(other, odd),
        !spec_same(odd, other) && !spec_same(other, odd),
        !spec_in_unit(odd),
        spec_lesser(odd, other) == other && spec_greater(odd, other) == other,
        other <= 0x7F80_0000 || 0x8000_0000 <= other <= 0xFF80_0000 ==> spec_lesser(other, odd)
            == other && spec_greater(other, odd) == other,
{
}

/// Bits are those of a finite number below 0x7F80_0000, with the sign bit or without it,
/// and of one between zero and one up to those of one, or with both signs of zero.
pub proof fn finite_numbers_lie_below_infinity(bits: u32)
    ensures
        spec_is_finite(bits) <==> bits < 0x7F80_0000 || 0x8000_0000 <= bits < 0xFF80_0000,
        spec_in_unit(bits) <==> bits <= 0x3F80_0000 || bits == 0x8000_0000,
        spec_is_infinite(bits) <==> bits == 0x7F80_0000 || bits == 0xFF80_0000,
        spec_is_nan(bits) <==> 0x7F80_0000 < bits < 0x8000_0000 || 0xFF80_0000 < bits,
{
}

/// The lesser of two numbers is one of them and above neither, the greater one of them and
/// below neither; the first is taken where they are the same.
pub proof fn lesser_and_greater_are_the_extremes(left: u32, right: u32)
    requires
        !spec_is_nan(left),
        !spec_is_nan(right),
    ensures
        spec_lesser(left, right) == left || spec_lesser(left, right) == right,
        spec_at_most(spec_lesser(left, right), left),
        spec_at_most(spec_lesser(left, right), right),
        spec_greater(left, right) == left || spec_greater(left, right) == right,
        spec_at_most(left, spec_greater(left, right)),
        spec_at_most(right, spec_greater(left, right)),
        spec_same(left, right) ==> spec_lesser(left, right) == left && spec_greater(left, right)
            == left,
{
}

/// In the total order bits without the sign bit come as they are, those with it before all
/// of them and the other way round, so that no two of them tie.
pub proof fn total_order_goes_by_bits(left: u32, right: u32)
    ensures
        left < 0x8000_0000 && right < 0x8000_0000 ==> (total_key(left) < total_key(right)
            <==> left < right),
        left >= 0x8000_0000 && right >= 0x8000_0000 ==> (total_key(left) < total_key(right)
            <==> left > right),
        left >= 0x8000_0000 && right < 0x8000_0000 ==> total_key(left) < total_key(right),
        total_key(left) == total_key(right) ==> left == right,
{
}

/// The fraction of a byte is zero for none of 255 and one for all of it, is rounded to the
/// nearest number in between, and is always between zero and one.
pub proof fn byte_fractions_go_from_zero_to_one(bits: u32, value: u8)
    requires
        is_byte_fraction(bits, value),
    ensures
        value == 0 ==> bits == 0,
        value == 255 ==> bits == 0x3F80_0000,
        bits <= 0x3F80_0000,
        value > 0 ==> bits > 0,
        value >= 128 ==> 0x3F00_0000 <= bits && 2 * (255 * (bits - 0x3E80_0000) - value
            * 0x100_0000) < 255 && 2 * (255 * (bits - 0x3E80_0000) - value * 0x100_0000) > -255,
        64 <= value < 128 ==> 0x3E80_0000 <= bits <= 0x3F00_0000,
{
}

/// The scale of a byte is the power of two that brings it to 32 binary digits.
pub proof fn byte_scales_fill_the_digits(value: u8)
    requires
        value > 0,
    ensures
        0x8000_0000 <= value * byte_fraction_scale(value) < 0x1_0000_0000,
        byte_fraction_scale(value) == vstd::arithmetic::power2::pow2(
            byte_fraction_places(value) as nat,
        ),
{
    vstd::arithmetic::power2::lemma2_to64();
    let scale = byte_fraction_scale(value);
    if value >= 128 {
        assert(value * scale == value * 0x100_0000);
    } else if value >= 64 {
        assert(value * scale == value * 0x200_0000);
    } else if value >= 32 {
        assert(value * scale == value * 0x400_0000);
    } else if value >= 16 {
        assert(value * scale == value * 0x800_0000);
    } else if value >= 8 {
        assert(value * scale == value * 0x1000_0000);
    } else if value >= 4 {
        assert(value * scale == value * 0x2000_0000);
    } else if value >= 2 {
        assert(value * scale == value * 0x4000_0000);
    } else {
        assert(value * scale == value * 0x8000_0000);
    }
}

} // verus!
