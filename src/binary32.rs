//! The binary32 layout: bit 31 is the sign, bits 30 to 23 the biased
//! exponent, bits 22 to 0 the stored mantissa.

use vstd::prelude::*;

use crate::dyadic::{product, Dyadic};

verus! {

/// Subtracted from the stored exponent field to obtain the true exponent.
pub const BIAS: i32 = 127;

/// Number of stored mantissa bits.
pub const MANTISSA_BITS: u32 = 23;

/// The sign field: bit 31.
pub open spec fn sign_field(bits: u32) -> nat {
    (bits / 0x8000_0000) as nat
}

/// The biased exponent field: bits 30 to 23.
pub open spec fn exponent_field(bits: u32) -> nat {
    ((bits / 0x80_0000) % 0x100) as nat
}

/// The stored mantissa field: bits 22 to 0.
pub open spec fn mantissa_field(bits: u32) -> nat {
    (bits % 0x80_0000) as nat
}

/// Splits a bit pattern into its sign, exponent and mantissa fields.
/// Every pattern is accepted, infinities and NaNs included.
pub fn parse(bits: u32) -> (r: (u32, u32, u32))
    ensures
        r.0 == sign_field(bits),
        r.1 == exponent_field(bits),
        r.2 == mantissa_field(bits),
        r.0 <= 1,
        r.1 <= 0xff,
        r.2 < 0x80_0000,
        (r.0 << 31u32) | (r.1 << 23u32) | r.2 == bits,
        r.0 * 0x8000_0000 + r.1 * 0x80_0000 + r.2 == bits,
{
    let sign = (bits >> 31u32) & 1;
    let exponent = (bits >> 23u32) & 0xff;
    let mantissa = bits & 0x7f_ffff;
    assert(sign == bits / 0x8000_0000 && sign <= 1) by (bit_vector)
        requires
            sign == (bits >> 31u32) & 1,
    ;
    assert(exponent == (bits / 0x80_0000) % 0x100 && exponent <= 0xff) by (bit_vector)
        requires
            exponent == (bits >> 23u32) & 0xff,
    ;
    assert(mantissa == bits % 0x80_0000 && mantissa < 0x80_0000) by (bit_vector)
        requires
            mantissa == bits & 0x7f_ffff,
    ;
    assert((sign << 31u32) | (exponent << 23u32) | mantissa == bits && sign * 0x8000_0000
        + exponent * 0x80_0000 + mantissa == bits) by (bit_vector)
        requires
            sign == (bits >> 31u32) & 1,
            exponent == (bits >> 23u32) & 0xff,
            mantissa == bits & 0x7f_ffff,
    ;
    (sign, exponent, mantissa)
}

/// The real value of a sign field: `(-1)^sign`.
pub open spec fn sign_value(sign: nat) -> (int, int) {
    if sign == 0 {
        (1, 0)
    } else {
        (-1, 0)
    }
}

/// The real value of an exponent field: `2^(exponent - 127)`, applied
/// uniformly, without the special meaning of the fields 0 and 255.
pub open spec fn exponent_value(exponent: nat) -> (int, int) {
    (1, exponent - BIAS)
}

/// The real value of a mantissa field: the implicit leading one plus the
/// stored fraction, `1 + mantissa * 2^-23`, that is `(2^23 + mantissa) * 2^-23`.
pub open spec fn mantissa_value(mantissa: nat) -> (int, int) {
    (0x80_0000 + mantissa as int, -(MANTISSA_BITS as int))
}

/// The low `i` bits of `m` gain bit `i` when `i` grows by one, and bit `i`
/// taken alone is either absent or worth `2^i`.
proof fn lemma_low_bits_step(m: u32, i: u32)
    by (bit_vector)
    requires
        i < 31,
    ensures
        (m & (((1u32 << ((i + 1) as u32)) - 1) as u32)) == (m & (((1u32 << i) - 1) as u32)) + (m
            & (1u32 << i)),
        (m & (1u32 << i)) == 0 || (m & (1u32 << i)) == (1u32 << i),
{
}

/// Maps each raw field to its real-number value. Bit `i` of the mantissa,
/// where set, adds `2^(i - 23)` to the implicit leading one, so the mantissa
/// value always lies in `[1, 2)`: its significand is at least `2^23` and
/// below `2^24`, at scale `2^-23`.
pub fn decode(sign_bits: u32, exponent_bits: u32, mantissa_bits: u32) -> (r: (
    Dyadic,
    Dyadic,
    Dyadic,
))
    requires
        sign_bits <= 1,
        exponent_bits <= 0xff,
        mantissa_bits < 0x80_0000,
    ensures
        r.0@ == sign_value(sign_bits as nat),
        r.1@ == exponent_value(exponent_bits as nat),
        r.2@ == mantissa_value(mantissa_bits as nat),
        0x80_0000 <= r.2.significand < 0x100_0000,
{
    let sign_real_num = if sign_bits == 0 {
        Dyadic { significand: 1, exponent: 0 }
    } else {
        Dyadic { significand: -1, exponent: 0 }
    };

    let exponent_real_num = Dyadic { significand: 1, exponent: (exponent_bits as i32) - BIAS };

    // The accumulator counts in units of 2^-23 and starts at one.
    let mut acc: i64 = 0x80_0000;
    let mut i: u32 = 0;
    assert((mantissa_bits & (((1u32 << 0u32) - 1) as u32)) == 0) by (bit_vector);
    while i < MANTISSA_BITS
        invariant
            i <= MANTISSA_BITS,
            mantissa_bits < 0x80_0000,
            acc == 0x80_0000 + (mantissa_bits & (((1u32 << i) - 1) as u32)),
        decreases MANTISSA_BITS - i,
    {
        let mask: u32 = 1u32 << i;
        let one_at_bit_i = mantissa_bits & mask;
        proof {
            lemma_low_bits_step(mantissa_bits, i);
        }
        assert(mask < 0x80_0000 && (mantissa_bits & (((1u32 << i) - 1) as u32)) < 0x80_0000)
            by (bit_vector)
            requires
                mask == 1u32 << i,
                i < 23,
        ;
        if one_at_bit_i != 0 {
            acc = acc + mask as i64;
        }
        i = i + 1;
    }
    assert((mantissa_bits & (((1u32 << 23u32) - 1) as u32)) == mantissa_bits) by (bit_vector)
        requires
            mantissa_bits < 0x80_0000,
    ;
    let mantissa_real_num = Dyadic { significand: acc, exponent: -23 };

    (sign_real_num, exponent_real_num, mantissa_real_num)
}

/// Multiplies the three decoded parts back into one number.
pub fn recalculate(sign_real_num: Dyadic, exponent_real_num: Dyadic, mantissa_real_num: Dyadic) -> (r:
    Dyadic)
    requires
        i64::MIN <= sign_real_num.significand * exponent_real_num.significand <= i64::MAX,
        i64::MIN <= sign_real_num.significand * exponent_real_num.significand
            * mantissa_real_num.significand <= i64::MAX,
        i32::MIN <= sign_real_num.exponent + exponent_real_num.exponent <= i32::MAX,
        i32::MIN <= sign_real_num.exponent + exponent_real_num.exponent
            + mantissa_real_num.exponent <= i32::MAX,
    ensures
        r@ == product(product(sign_real_num@, exponent_real_num@), mantissa_real_num@),
{
    sign_real_num.mul(exponent_real_num).mul(mantissa_real_num)
}

/// The number that decoding the fields of `bits` and multiplying them gives.
pub open spec fn recomposed_value(bits: u32) -> (int, int) {
    product(
        product(sign_value(sign_field(bits)), exponent_value(exponent_field(bits))),
        mantissa_value(mantissa_field(bits)),
    )
}

/// The number a finite pattern denotes under IEEE 754, as a significand and
/// a power of two: `(-1)^s * (2^23 + m) * 2^(e - 150)` for a normalized
/// pattern, `(-1)^s * m * 2^-149` for a zero or subnormal one.
pub open spec fn ieee_value(bits: u32) -> (int, int) {
    let (magnitude, power): (int, int) = if exponent_field(bits) == 0 {
        (mantissa_field(bits) as int, -149)
    } else {
        (0x80_0000 + mantissa_field(bits) as int, exponent_field(bits) - 150)
    };
    if sign_field(bits) == 0 {
        (magnitude, power)
    } else {
        (-magnitude, power)
    }
}

/// A normalized pattern has an exponent field from 1 to 254.
pub open spec fn is_normalized(bits: u32) -> bool {
    1 <= exponent_field(bits) <= 0xfe
}

/// A NaN pattern has an all-ones exponent field and a nonzero mantissa.
pub open spec fn is_nan(bits: u32) -> bool {
    exponent_field(bits) == 0xff && mantissa_field(bits) != 0
}

/// Whether a pattern that is not a NaN compares below zero: a finite one
/// whose value is negative, or negative infinity.
pub open spec fn below_zero(bits: u32) -> bool {
    if exponent_field(bits) < 0xff {
        ieee_value(bits).0 < 0
    } else {
        sign_field(bits) == 1
    }
}

/// The pattern of negative zero.
pub const NEGATIVE_ZERO: u32 = 0x8000_0000;

/// The three fields, laid side by side, make up the pattern.
proof fn lemma_fields_concat(bits: u32)
    by (bit_vector)
    ensures
        bits / 0x8000_0000 <= 1,
        bits == (bits / 0x8000_0000) * 0x8000_0000 + ((bits / 0x80_0000) % 0x100) * 0x80_0000 + bits
            % 0x80_0000,
{
}

/// Round trip: for every normalized pattern, decoding its fields and
/// multiplying them gives exactly the number the pattern denotes.
pub proof fn lemma_round_trip(bits: u32)
    requires
        is_normalized(bits),
    ensures
        recomposed_value(bits) == ieee_value(bits),
{
    lemma_fields_concat(bits);
    let m: int = 0x80_0000 + mantissa_field(bits) as int;
    if sign_field(bits) == 0 {
        assert(1 * 1 * m == m) by (nonlinear_arith);
    } else {
        assert(-1 * 1 * m == -m) by (nonlinear_arith);
    }
}

/// Sign isolation: for every pattern that is not a NaN, the sign field is 1
/// exactly when the value is below zero or the pattern is negative zero,
/// and 0 otherwise.
pub proof fn lemma_sign_isolation(bits: u32)
    requires
        !is_nan(bits),
    ensures
        sign_field(bits) == 1 <==> (below_zero(bits) || bits == NEGATIVE_ZERO),
        sign_field(bits) == 0 <==> !(below_zero(bits) || bits == NEGATIVE_ZERO),
{
    lemma_fields_concat(bits);
    let e = exponent_field(bits);
    let m = mantissa_field(bits);
    if sign_field(bits) == 0 {
        assert(bits < NEGATIVE_ZERO);
        if e < 0xff {
            assert(ieee_value(bits).0 >= 0);
        }
    } else {
        assert(sign_field(bits) == 1);
        if e == 0 {
            assert(ieee_value(bits).0 == -m);
            assert(m == 0 ==> bits == NEGATIVE_ZERO);
        } else if e < 0xff {
            assert(ieee_value(bits).0 == -(0x80_0000 + m));
        }
    }
}

} // verus!
