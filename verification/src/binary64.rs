//! Reading IEEE 754 binary64 encodings.
//!
//! An encoding is a `u64` laid out as `sign * 2^63 + exponent * 2^52 + fraction`
//! with a one-bit sign, an eleven-bit biased exponent and a 52-bit fraction.
//! An all-ones exponent marks an infinity (fraction zero) or a NaN. Every
//! other encoding is finite and stands for a whole multiple of `2^-1074`,
//! the smallest positive number of the format: with exponent field `e > 0`
//! for `(-1)^sign * (2^52 + fraction) * 2^(e - 1)` of them, with `e == 0` for
//! `(-1)^sign * fraction` of them. The predicates below are stated over that
//! multiple; the lemmas show how they read on the encoding itself.

use vstd::prelude::*;
use vstd::arithmetic::power2::{
    lemma2_to64_rest,
    lemma_pow2_adds,
    lemma_pow2_pos,
    lemma_pow2_strictly_increases,
    pow2,
};

verus! {

/// Weight of the sign bit, `2^63`.
pub const SIGN_WEIGHT: u64 = 0x8000_0000_0000_0000;

/// Weight of the lowest exponent bit, `2^52`.
pub const EXPONENT_WEIGHT: u64 = 0x0010_0000_0000_0000;

/// Number of values the exponent field can take, `2^11`.
pub const EXPONENT_RANGE: u64 = 2048;

/// The all-ones exponent field, reserved for infinities and NaNs.
pub const EXPONENT_SPECIAL: u64 = 2047;

/// The exponent field of every number in `[1, 2)`.
pub const EXPONENT_BIAS: u64 = 1023;

/// The encoding of `1.0`.
pub const ONE: u64 = 0x3FF0_0000_0000_0000;

/// The encoding of positive infinity.
pub const POSITIVE_INFINITY: u64 = 0x7FF0_0000_0000_0000;

/// The encoding of negative infinity.
pub const NEGATIVE_INFINITY: u64 = 0xFFF0_0000_0000_0000;

/// The sign bit: 1 for encodings written with a minus sign.
pub open spec fn sign_field(bits: u64) -> int {
    bits as int / SIGN_WEIGHT as int
}

/// The biased exponent, in `0..=2047`.
pub open spec fn exponent_field(bits: u64) -> int {
    (bits as int / EXPONENT_WEIGHT as int) % EXPONENT_RANGE as int
}

/// The 52 fraction bits.
pub open spec fn fraction_field(bits: u64) -> int {
    bits as int % EXPONENT_WEIGHT as int
}

/// The encoding with its sign bit cleared.
pub open spec fn magnitude(bits: u64) -> int {
    bits as int % SIGN_WEIGHT as int
}

/// The encoding stands for a real number (zero, subnormal or normal).
pub open spec fn finite(bits: u64) -> bool {
    exponent_field(bits) != EXPONENT_SPECIAL
}

/// The encoding is a NaN.
pub open spec fn not_a_number(bits: u64) -> bool {
    exponent_field(bits) == EXPONENT_SPECIAL && fraction_field(bits) != 0
}

/// The digits of a finite encoding: the fraction, with the implicit leading
/// one unless the exponent field is zero.
pub open spec fn significand(bits: u64) -> int {
    if exponent_field(bits) == 0 {
        fraction_field(bits)
    } else {
        EXPONENT_WEIGHT + fraction_field(bits)
    }
}

/// The power of two that scales the digits of a finite encoding, counted
/// from `2^-1074`.
pub open spec fn scale(bits: u64) -> nat {
    if exponent_field(bits) == 0 {
        0
    } else {
        (exponent_field(bits) - 1) as nat
    }
}

/// The value of a finite encoding in units of `2^-1074`.
pub open spec fn scaled_value(bits: u64) -> int {
    let size = significand(bits) * pow2(scale(bits));
    if sign_field(bits) == 1 {
        -size
    } else {
        size
    }
}

/// The number one in units of `2^-1074`.
pub open spec fn scaled_one() -> int {
    pow2(1074) as int
}

/// The encoded value compares below zero. No NaN does.
pub open spec fn below_zero(bits: u64) -> bool {
    if finite(bits) {
        scaled_value(bits) < 0
    } else {
        bits == NEGATIVE_INFINITY
    }
}

/// The encoded value `v` satisfies `0 <= v < 1`.
pub open spec fn in_unit_interval(bits: u64) -> bool {
    finite(bits) && 0 <= scaled_value(bits) < scaled_one()
}

/// The encoded value `v` satisfies `v >= 1`. No NaN does.
pub open spec fn at_least_one(bits: u64) -> bool {
    if finite(bits) {
        scaled_value(bits) >= scaled_one()
    } else {
        bits == POSITIVE_INFINITY
    }
}

/// The three fields determine the encoding.
pub proof fn lemma_fields_compose(bits: u64)
    ensures
        bits == sign_field(bits) * SIGN_WEIGHT + exponent_field(bits) * EXPONENT_WEIGHT
            + fraction_field(bits),
        0 <= sign_field(bits) <= 1,
        0 <= exponent_field(bits) < EXPONENT_RANGE,
        0 <= fraction_field(bits) < EXPONENT_WEIGHT,
        magnitude(bits) == exponent_field(bits) * EXPONENT_WEIGHT + fraction_field(bits),
{
}

/// The size of a finite value against one: below it exactly when the
/// exponent field is below the bias, and zero only for the two zeros.
pub proof fn lemma_size_against_one(bits: u64)
    requires
        finite(bits),
    ensures
        0 <= significand(bits) * pow2(scale(bits)),
        significand(bits) * pow2(scale(bits)) == 0 <==> magnitude(bits) == 0,
        significand(bits) * pow2(scale(bits)) < scaled_one() <==> exponent_field(bits)
            < EXPONENT_BIAS,
{
    lemma_fields_compose(bits);
    lemma2_to64_rest();
    let m = significand(bits);
    let s = scale(bits);
    let p = pow2(s) as int;
    lemma_pow2_pos(s);
    assert(0 <= m * p) by (nonlinear_arith)
        requires
            0 <= m,
            0 < p,
    ;
    assert(m * p == 0 <==> m == 0) by (nonlinear_arith)
        requires
            0 <= m,
            0 < p,
    ;
    if exponent_field(bits) < EXPONENT_BIAS {
        // fewer than 2^53 digits, scaled by at most 2^1021
        let top = pow2(1021) as int;
        if s < 1021 {
            lemma_pow2_strictly_increases(s, 1021);
        }
        lemma_pow2_adds(53, 1021);
        assert(m * p < pow2(53) * top) by (nonlinear_arith)
            requires
                0 <= m < pow2(53),
                0 < p <= top,
        ;
    } else {
        // at least 2^52 digits, scaled by at least 2^1022
        let bottom = pow2(1022) as int;
        lemma_pow2_pos(1022);
        if s > 1022 {
            lemma_pow2_strictly_increases(1022, s);
        }
        lemma_pow2_adds(52, 1022);
        assert(m * p >= pow2(52) * bottom) by (nonlinear_arith)
            requires
                m >= pow2(52),
                p >= bottom > 0,
        ;
    }
}

/// How the order predicates read on the encoding: among encodings without
/// a minus sign, numeric order is the order of the encodings themselves.
pub proof fn lemma_thresholds(bits: u64)
    ensures
        finite(bits) <==> magnitude(bits) < POSITIVE_INFINITY,
        not_a_number(bits) <==> magnitude(bits) > POSITIVE_INFINITY,
        below_zero(bits) <==> SIGN_WEIGHT < bits <= NEGATIVE_INFINITY,
        in_unit_interval(bits) <==> bits < ONE || bits == SIGN_WEIGHT,
        at_least_one(bits) <==> ONE <= bits <= POSITIVE_INFINITY,
{
    lemma_fields_compose(bits);
    if finite(bits) {
        lemma_size_against_one(bits);
    }
}

/// Whether the encoding stands for a real number.
pub fn is_finite(bits: u64) -> (r: bool)
    ensures
        r == finite(bits),
{
    (bits / EXPONENT_WEIGHT) % EXPONENT_RANGE != EXPONENT_SPECIAL
}

/// Whether the encoded value compares below zero.
pub fn is_below_zero(bits: u64) -> (r: bool)
    ensures
        r == below_zero(bits),
{
    proof {
        lemma_thresholds(bits);
    }
    SIGN_WEIGHT < bits && bits <= NEGATIVE_INFINITY
}

/// Whether the encoded value lies in `[0, 1)`.
pub fn is_in_unit_interval(bits: u64) -> (r: bool)
    ensures
        r == in_unit_interval(bits),
{
    proof {
        lemma_thresholds(bits);
    }
    bits < ONE || bits == SIGN_WEIGHT
}

/// Whether the encoded value is at least one.
pub fn is_at_least_one(bits: u64) -> (r: bool)
    ensures
        r == at_least_one(bits),
{
    proof {
        lemma_thresholds(bits);
    }
    ONE <= bits && bits <= POSITIVE_INFINITY
}

} // verus!
