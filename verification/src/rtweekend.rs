//! Random numbers and small utilities.

use vstd::prelude::*;
use crate::scalar::Scalar;
use rand::rngs::SmallRng;

verus! {

/// The generator from which every random choice of the renderer is drawn
/// (`rand::rngs::SmallRng`). Nothing is known of its state.
#[verifier::external_type_specification]
#[verifier::external_body]
pub struct ExSmallRng(rand::rngs::SmallRng);

/// The next 64 bits of the generator, by `rand::RngCore::next_u64`. Any value
/// may come back.
#[verifier::external_body]
pub(crate) fn next_bits(rng: &mut SmallRng) -> (bits: u64) {
    rand::RngCore::next_u64(rng)
}

/// An integer of the inclusive range `low..=high`, by `rand::Rng::gen_range`,
/// which panics on an empty range and otherwise returns a member of it.
#[verifier::external_body]
pub(crate) fn pick_between(rng: &mut SmallRng, low: i32, high: i32) -> (r: i32)
    requires
        low <= high,
    ensures
        low <= r <= high,
{
    rand::Rng::gen_range(rng, low..=high)
}

/// Two to the power 53: the number of steps into which the unit interval is cut.
pub const UNIT_STEPS: i64 = 0x20_0000_0000_0000;

/// The step of the unit interval that 64 random bits select: their upper 53.
pub open spec fn unit_step_spec(bits: u64) -> i64 {
    (bits >> 11) as i64
}

/// The scalar in `[0, 1)` that 64 random bits select.
pub open spec fn unit_from_bits_spec<S: Scalar>(bits: u64) -> S {
    S::from_ratio_spec(unit_step_spec(bits), UNIT_STEPS)
}

pub proof fn lemma_unit_step_bounds(bits: u64)
    ensures
        0 <= unit_step_spec(bits) < UNIT_STEPS,
        unit_step_spec(bits) == (bits >> 11),
{
    assert((bits >> 11) < 0x20_0000_0000_0000u64) by (bit_vector);
}

/// Turns 64 random bits into a scalar of `[0, 1)`: the upper 53 bits, as a
/// count of steps of width 2⁻⁵³.
pub fn unit_from_bits<S: Scalar>(bits: u64) -> (r: S)
    ensures
        r == unit_from_bits_spec::<S>(bits),
{
    proof {
        lemma_unit_step_bounds(bits);
    }
    let step: u64 = bits >> 11;
    S::from_ratio(step as i64, UNIT_STEPS)
}

pub open spec fn degrees_to_radians_spec<S: Scalar>(degrees: S) -> S {
    degrees.times_spec(S::pi_spec()).over_spec(S::from_ratio_spec(180, 1))
}

pub fn degrees_to_radians<S: Scalar>(degrees: S) -> (r: S)
    ensures
        r == degrees_to_radians_spec(degrees),
{
    degrees.times(S::pi()).over(S::from_ratio(180, 1))
}

/// A random scalar in `[0, 1)`.
pub fn random_double<S: Scalar>(rng: &mut SmallRng) -> (r: S)
    ensures
        exists|bits: u64| r == unit_from_bits_spec::<S>(bits),
{
    let bits = next_bits(rng);
    unit_from_bits(bits)
}

/// The point of `[min, max)` that lies the fraction `unit` of the way from `min`.
pub open spec fn spread_spec<S: Scalar>(min: S, max: S, unit: S) -> S {
    min.plus_spec(max.minus_spec(min).times_spec(unit))
}

pub fn spread<S: Scalar>(min: S, max: S, unit: S) -> (r: S)
    ensures
        r == spread_spec(min, max, unit),
{
    min.plus(max.minus(min).times(unit))
}

/// A random scalar in `[min, max)`.
pub fn random_double_range<S: Scalar>(rng: &mut SmallRng, min: S, max: S) -> (r: S)
    ensures
        exists|bits: u64| r == spread_spec(min, max, unit_from_bits_spec::<S>(bits)),
{
    let bits = next_bits(rng);
    spread(min, max, unit_from_bits(bits))
}

/// A random integer in `[min, max]`.
pub fn random_int(rng: &mut SmallRng, min: i32, max: i32) -> (r: i32)
    requires
        min <= max,
    ensures
        min <= r <= max,
{
    pick_between(rng, min, max)
}

} // verus!
