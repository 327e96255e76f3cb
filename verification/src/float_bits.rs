//! Classification of `f64` values given by their raw IEEE-754 bit patterns.
//!
//! Physical quantities are carried through this crate as the bit patterns of their `f64`
//! values. Only the classification by the fields of the binary64 format is done here: a value
//! is finite iff its 11 exponent bits are not all ones, and negative-signed iff its sign bit
//! (bit 63) is set.
use vstd::prelude::*;

verus! {

/// The 11 exponent bits of a binary64 value.
pub open spec fn exponent_bits(bits: u64) -> u64 {
    (bits >> 52u64) & 0x7ffu64
}

/// A binary64 value is finite (neither infinite nor NaN) iff its exponent bits are not all ones.
pub open spec fn is_finite(bits: u64) -> bool {
    exponent_bits(bits) != 0x7ffu64
}

/// A binary64 value has a negative sign iff bit 63 is set (this includes `-0.0` and negative
/// NaNs).
pub open spec fn is_sign_negative(bits: u64) -> bool {
    bits >= 0x8000_0000_0000_0000u64
}

/// A binary64 value is normal (neither zero, subnormal, infinite nor NaN) iff its exponent bits
/// are neither all zeros nor all ones.
pub open spec fn is_normal(bits: u64) -> bool {
    exponent_bits(bits) != 0u64 && exponent_bits(bits) != 0x7ffu64
}

/// `true` iff the value with the given bit pattern is normal.
pub fn bits_is_normal(bits: u64) -> (b: bool)
    ensures
        b == is_normal(bits),
{
    let e = (bits >> 52u64) & 0x7ffu64;
    e != 0u64 && e != 0x7ffu64
}

/// `true` iff the value with the given bit pattern is finite.
pub fn bits_is_finite(bits: u64) -> (b: bool)
    ensures
        b == is_finite(bits),
{
    (bits >> 52u64) & 0x7ffu64 != 0x7ffu64
}

/// `true` iff the value with the given bit pattern has a negative sign.
pub fn bits_is_sign_negative(bits: u64) -> (b: bool)
    ensures
        b == is_sign_negative(bits),
{
    bits >= 0x8000_0000_0000_0000u64
}

/// The 52 fraction bits of a binary64 value.
pub open spec fn fraction_bits(bits: u64) -> u64 {
    bits & 0x000f_ffff_ffff_ffffu64
}

/// A binary64 value is NaN iff its exponent bits are all ones and its fraction is not zero.
pub open spec fn is_nan(bits: u64) -> bool {
    exponent_bits(bits) == 0x7ffu64 && fraction_bits(bits) != 0
}

/// A binary64 value is zero (`+0.0` or `-0.0`) iff all bits but the sign bit are zero.
pub open spec fn is_zero(bits: u64) -> bool {
    bits & 0x7fff_ffff_ffff_ffffu64 == 0
}

/// The position of a binary64 value in the order of the values that are not NaN: the values
/// of one sign are ordered as their bit patterns without the sign bit, the negative ones in
/// reverse, and both zeros are at position 0.
pub open spec fn order_key(bits: u64) -> int {
    let magnitude = (bits & 0x7fff_ffff_ffff_ffffu64) as int;
    if is_sign_negative(bits) { -magnitude } else { magnitude }
}

/// `a <= b` on binary64 values (false if either is NaN).
pub open spec fn float_le(a: u64, b: u64) -> bool {
    !is_nan(a) && !is_nan(b) && order_key(a) <= order_key(b)
}

/// `a < b` on binary64 values (false if either is NaN).
pub open spec fn float_lt(a: u64, b: u64) -> bool {
    !is_nan(a) && !is_nan(b) && order_key(a) < order_key(b)
}

/// `true` iff the value with the given bit pattern is NaN.
pub fn bits_is_nan(bits: u64) -> (b: bool)
    ensures
        b == is_nan(bits),
{
    (bits >> 52u64) & 0x7ffu64 == 0x7ffu64 && bits & 0x000f_ffff_ffff_ffffu64 != 0
}

/// `true` iff the value with the given bit pattern is zero.
pub fn bits_is_zero(bits: u64) -> (b: bool)
    ensures
        b == is_zero(bits),
{
    bits & 0x7fff_ffff_ffff_ffffu64 == 0
}

/// `a <= b` on the binary64 values with the given bit patterns.
pub fn bits_le(a: u64, b: u64) -> (r: bool)
    ensures
        r == float_le(a, b),
{
    if bits_is_nan(a) || bits_is_nan(b) {
        return false;
    }
    let ma = a & 0x7fff_ffff_ffff_ffffu64;
    let mb = b & 0x7fff_ffff_ffff_ffffu64;
    match (bits_is_sign_negative(a), bits_is_sign_negative(b)) {
        (false, false) => ma <= mb,
        (true, true) => mb <= ma,
        (true, false) => true,
        (false, true) => ma == 0 && mb == 0,
    }
}

/// `a < b` on the binary64 values with the given bit patterns.
pub fn bits_lt(a: u64, b: u64) -> (r: bool)
    ensures
        r == float_lt(a, b),
{
    if bits_is_nan(a) || bits_is_nan(b) {
        return false;
    }
    let ma = a & 0x7fff_ffff_ffff_ffffu64;
    let mb = b & 0x7fff_ffff_ffff_ffffu64;
    match (bits_is_sign_negative(a), bits_is_sign_negative(b)) {
        (false, false) => ma < mb,
        (true, true) => mb < ma,
        (true, false) => ma != 0 || mb != 0,
        (false, true) => false,
    }
}

/// `2^k`.
pub open spec fn pow2s(k: nat) -> nat
    decreases k,
{
    if k == 0 { 1 } else { 2 * pow2s((k - 1) as nat) }
}

proof fn lemma_pow2s_52()
    ensures
        pow2s(52) == 0x10_0000_0000_0000int,
{
    reveal_with_fuel(pow2s, 53);
}

/// The normalized form of a positive value `m * 2^e`: the mantissa doubled (and the exponent
/// lowered) until the mantissa has its leading one at bit 52.
pub open spec fn normalized(m: nat, e: int) -> (nat, int)
    decreases 0x20_0000_0000_0000int - m,
{
    if m == 0 || m >= 0x10_0000_0000_0000int {
        (m, e)
    } else {
        normalized(2 * m, e - 1)
    }
}

/// The binary64 bit pattern of the magnitude `m * 2^e` of a value, for `0 < m < 2^53` (exact, as
/// the value fits the format).
pub open spec fn magnitude_bits(m: nat, e: int) -> int {
    let (nm, ne) = normalized(m, e);
    (ne + 1075) * 0x10_0000_0000_0000int + (nm - 0x10_0000_0000_0000int)
}

/// The binary64 bit pattern of a 32-bit integer (every such integer is exactly representable).
pub open spec fn i32_bits(i: i32) -> u64 {
    if i == 0 {
        0
    } else if i > 0 {
        magnitude_bits(i as nat, 0) as u64
    } else {
        (0x8000_0000_0000_0000int + magnitude_bits((-(i as int)) as nat, 0)) as u64
    }
}

/// The bit pattern of the binary64 value of a 32-bit integer.
pub fn i32_to_bits(i: i32) -> (b: u64)
    ensures
        b == i32_bits(i),
{
    if i == 0 {
        return 0;
    }
    let negative = i < 0;
    let wide: i64 = i as i64;
    let mut m: u64 = if negative { (-wide) as u64 } else { wide as u64 };
    let ghost m0: nat = m as nat;
    let mut shift: u64 = 0;
    proof { lemma_pow2s_52(); }
    while m < 0x10_0000_0000_0000u64
        invariant
            0 < m < 0x20_0000_0000_0000u64,
            shift <= 52,
            m >= pow2s(shift as nat),
            pow2s(52) == 0x10_0000_0000_0000int,
            normalized(m as nat, -(shift as int)) == normalized(m0, 0),
        decreases 0x20_0000_0000_0000u64 - m,
    {
        assert(shift < 52);
        m = m * 2;
        shift = shift + 1;
    }
    let exponent: u64 = 1075 - shift;
    assert((exponent << 52u64) == exponent * 0x10_0000_0000_0000u64) by (bit_vector)
        requires
            exponent <= 1075,
    ;
    let magnitude = (exponent << 52u64) + (m - 0x10_0000_0000_0000u64);
    proof {
        assert(normalized(m as nat, -(shift as int)) == (m as nat, -(shift as int)));
        assert(magnitude == magnitude_bits(m0, 0));
    }
    if negative {
        proof {
            assert(i32_bits(i) == (0x8000_0000_0000_0000int + magnitude_bits(m0, 0)) as u64);
        }
        0x8000_0000_0000_0000u64 + magnitude
    } else {
        magnitude
    }
}

} // verus!
