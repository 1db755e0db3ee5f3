//! The octave schedule of the turbulence sum.
//!
//! Turbulence at a point adds up smooth samples of the noise field taken at a
//! sequence of sizes: the initial size, then half of it, and so on for as
//! long as the size is at least one. Each sample is weighted by its size and
//! the sum is scaled by `128 / initial size`. Halving a binary64 number that
//! is at least one is exact and lowers its exponent field by one, so the
//! whole schedule can be read off the encoding of the initial size.

use vstd::prelude::*;
use vstd::arithmetic::power2::{lemma_pow2_adds, pow2};
use crate::binary64::{
    at_least_one,
    exponent_field,
    fraction_field,
    is_at_least_one,
    lemma_fields_compose,
    lemma_thresholds,
    scaled_value,
    sign_field,
    EXPONENT_BIAS,
    EXPONENT_WEIGHT,
    ONE,
    POSITIVE_INFINITY,
};

verus! {

/// How many octaves a finite initial size gives: none below one (or for a
/// NaN), otherwise one more than the unbiased exponent, which is the whole
/// part of the size's binary logarithm.
pub open spec fn octave_count(initial_size: u64) -> nat {
    if at_least_one(initial_size) {
        (exponent_field(initial_size) - EXPONENT_BIAS + 1) as nat
    } else {
        0
    }
}

/// The size of octave `k`: the initial size with its exponent field lowered
/// by `k`, that is, the initial size divided by `2^k`.
pub open spec fn octave_size(initial_size: u64, k: int) -> u64 {
    (initial_size - k * EXPONENT_WEIGHT) as u64
}

/// Each octave of a finite schedule is at least one and has the sign and
/// fraction of the initial size with an exponent field `k` lower; the size
/// that would follow the last octave is below one.
pub proof fn lemma_octaves_halve(initial_size: u64, k: int)
    requires
        initial_size != POSITIVE_INFINITY,
        0 <= k <= octave_count(initial_size),
        at_least_one(initial_size),
    ensures
        initial_size - k * EXPONENT_WEIGHT >= ONE - EXPONENT_WEIGHT,
        sign_field(octave_size(initial_size, k)) == 0,
        fraction_field(octave_size(initial_size, k)) == fraction_field(initial_size),
        exponent_field(octave_size(initial_size, k)) == exponent_field(initial_size) - k,
        at_least_one(octave_size(initial_size, k)) <==> k < octave_count(initial_size),
{
    lemma_fields_compose(initial_size);
    lemma_thresholds(initial_size);
    let size = octave_size(initial_size, k);
    assert(k * EXPONENT_WEIGHT <= (exponent_field(initial_size) - EXPONENT_BIAS + 1)
        * EXPONENT_WEIGHT) by (nonlinear_arith)
        requires
            0 <= k <= exponent_field(initial_size) - EXPONENT_BIAS + 1,
    ;
    assert(size == (exponent_field(initial_size) - k) * EXPONENT_WEIGHT + fraction_field(
        initial_size,
    )) by (nonlinear_arith)
        requires
            size == initial_size - k * EXPONENT_WEIGHT,
            initial_size == exponent_field(initial_size) * EXPONENT_WEIGHT + fraction_field(
                initial_size,
            ),
    ;
    lemma_fields_compose(size);
    lemma_thresholds(size);
}

/// Octave `k` of a finite schedule is the initial size divided by `2^k`,
/// with nothing lost to rounding; so is the size that would follow the last
/// octave.
pub proof fn lemma_octave_is_initial_over_power_of_two(initial_size: u64, k: int)
    requires
        initial_size != POSITIVE_INFINITY,
        0 <= k <= octave_count(initial_size),
        at_least_one(initial_size),
    ensures
        scaled_value(octave_size(initial_size, k)) * pow2(k as nat) == scaled_value(initial_size),
{
    lemma_octaves_halve(initial_size, k);
    lemma_fields_compose(initial_size);
    lemma_thresholds(initial_size);
    let size = octave_size(initial_size, k);
    let e = exponent_field(initial_size);
    let m = EXPONENT_WEIGHT + fraction_field(initial_size);
    let low = pow2((e - k - 1) as nat) as int;
    let step = pow2(k as nat) as int;
    lemma_pow2_adds((e - k - 1) as nat, k as nat);
    assert((m * low) * step == m * (low * step)) by (nonlinear_arith);
}

/// The sizes at which turbulence samples the field, largest first: the
/// initial size, halved again and again while it is at least one. There are
/// none if the initial size is below one or a NaN. Positive infinity never
/// drops below one, so it has no schedule.
pub fn octave_sizes(initial_size: u64) -> (r: Option<Vec<u64>>)
    ensures
        r is None <==> initial_size == POSITIVE_INFINITY,
        r matches Some(sizes) ==> {
            &&& sizes@.len() == octave_count(initial_size)
            &&& forall|k: int|
                0 <= k < sizes@.len() ==> #[trigger] sizes@[k] == octave_size(initial_size, k)
        },
        !at_least_one(initial_size) ==> (r matches Some(sizes) && sizes@.len() == 0),
{
    if initial_size == POSITIVE_INFINITY {
        return None;
    }
    let mut sizes: Vec<u64> = Vec::new();
    let mut size = initial_size;
    while is_at_least_one(size)
        invariant
            initial_size != POSITIVE_INFINITY,
            sizes@.len() <= octave_count(initial_size),
            size == initial_size - sizes@.len() * EXPONENT_WEIGHT,
            forall|k: int|
                0 <= k < sizes@.len() ==> #[trigger] sizes@[k] == octave_size(initial_size, k),
        decreases size,
    {
        proof {
            lemma_thresholds(size);
            if sizes@.len() == 0 {
                assert(size == initial_size);
            } else {
                lemma_octaves_halve(initial_size, sizes@.len() as int);
            }
        }
        sizes.push(size);
        size = size - EXPONENT_WEIGHT;
    }
    proof {
        if at_least_one(initial_size) {
            lemma_octaves_halve(initial_size, sizes@.len() as int);
        }
    }
    Some(sizes)
}

} // verus!
