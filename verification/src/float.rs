//! How floating-point numbers compare, from their bits.
//!
//! Two numbers are equal when their bits are, except that the two zeros
//! equal each other and a NaN equals nothing.

use vstd::prelude::*;

verus! {

/// Whether the single-precision numbers with these bits are equal.
pub open spec fn same_single(a: u32, b: u32) -> bool {
    let (size_a, size_b) = (a % 0x8000_0000, b % 0x8000_0000);
    &&& size_a <= 0x7f80_0000
    &&& size_b <= 0x7f80_0000
    &&& a == b || (size_a == 0 && size_b == 0)
}

/// Whether the double-precision numbers with these bits are equal.
pub open spec fn same_double(a: u64, b: u64) -> bool {
    let (size_a, size_b) = (a % 0x8000_0000_0000_0000, b % 0x8000_0000_0000_0000);
    &&& size_a <= 0x7ff0_0000_0000_0000
    &&& size_b <= 0x7ff0_0000_0000_0000
    &&& a == b || (size_a == 0 && size_b == 0)
}

/// Whether the single-precision numbers with these bits are equal.
pub fn singles_equal(a: u32, b: u32) -> (same: bool)
    ensures
        same == same_single(a, b),
{
    let size_a: u32 = a % 0x8000_0000;
    let size_b: u32 = b % 0x8000_0000;
    size_a <= 0x7f80_0000 && size_b <= 0x7f80_0000 && (a == b || (size_a == 0 && size_b == 0))
}

/// Whether the double-precision numbers with these bits are equal.
pub fn doubles_equal(a: u64, b: u64) -> (same: bool)
    ensures
        same == same_double(a, b),
{
    let size_a: u64 = a % 0x8000_0000_0000_0000;
    let size_b: u64 = b % 0x8000_0000_0000_0000;
    size_a <= 0x7ff0_0000_0000_0000 && size_b <= 0x7ff0_0000_0000_0000 && (a == b || (size_a == 0
        && size_b == 0))
}

/// A single-precision number equals itself unless it is a NaN, which has
/// every exponent bit set and a fraction that is not zero.
pub proof fn law_a_single_equals_itself_unless_it_is_no_number(bits: u32)
    ensures
        same_single(bits, bits) <==> !(((bits / 0x0080_0000) % 256 == 255) && bits % 0x0080_0000
            != 0),
{
    assert(bits % 0x8000_0000 <= 0x7f80_0000 <==> !(((bits / 0x0080_0000) % 256 == 255) && bits
        % 0x0080_0000 != 0)) by (bit_vector);
}

/// A double-precision number equals itself unless it is a NaN, which has
/// every exponent bit set and a fraction that is not zero.
pub proof fn law_a_double_equals_itself_unless_it_is_no_number(bits: u64)
    ensures
        same_double(bits, bits) <==> !(((bits / 0x0010_0000_0000_0000) % 2048 == 2047) && bits
            % 0x0010_0000_0000_0000 != 0),
{
    assert(bits % 0x8000_0000_0000_0000 <= 0x7ff0_0000_0000_0000 <==> !(((bits
        / 0x0010_0000_0000_0000) % 2048 == 2047) && bits % 0x0010_0000_0000_0000 != 0))
        by (bit_vector);
}

/// Numbers with different bits are equal only as the two zeros, and equality
/// does not depend on which comes first. What equals anything equals itself.
pub proof fn law_only_the_zeros_differ_in_bits(a: u32, b: u32, c: u64, d: u64)
    ensures
        same_single(a, b) == same_single(b, a),
        same_single(a, b) ==> same_single(a, a) && same_single(b, b),
        same_single(a, b) && a != b ==> (a == 0 && b == 0x8000_0000) || (a == 0x8000_0000 && b
            == 0),
        same_single(0, 0x8000_0000),
        same_double(c, d) == same_double(d, c),
        same_double(c, d) ==> same_double(c, c) && same_double(d, d),
        same_double(c, d) && c != d ==> (c == 0 && d == 0x8000_0000_0000_0000) || (c
            == 0x8000_0000_0000_0000 && d == 0),
        same_double(0, 0x8000_0000_0000_0000),
{
}

} // verus!
