//! Random draws from a `rand` thread generator.
//!
//! The functions here state what holds of every outcome. The odds of an
//! outcome are those of the `rand` call they make.

use vstd::prelude::*;
use rand::rngs::ThreadRng;
use rand::seq::SliceRandom;
use rand::Rng;
use crate::color::Color;

verus! {

/// `rand::rngs::ThreadRng`, the lazily seeded generator of the running
/// thread. Opaque here.
#[verifier::external_type_specification]
#[verifier::external_body]
pub struct ExThreadRng(ThreadRng);

/// `Rng::gen_range` on the inclusive range `low..=high`, which must not be
/// empty. It draws each integer of the range with equal odds; the contract
/// claims only that the result lies in the range.
#[verifier::external_body]
pub(crate) fn uniform(rng: &mut ThreadRng, low: u32, high: u32) -> (value: u32)
    requires
        low <= high,
    ensures
        low <= value <= high,
{
    rng.gen_range(low..=high)
}

/// `Rng::gen_ratio`: `true` with probability `numerator / denominator`, where
/// the denominator is not zero and not below the numerator. The contract
/// claims only the two certain cases: `true` when the two are equal, `false`
/// when the numerator is zero.
#[verifier::external_body]
pub(crate) fn chance(rng: &mut ThreadRng, numerator: u32, denominator: u32) -> (hit: bool)
    requires
        0 < denominator,
        numerator <= denominator,
    ensures
        numerator == denominator ==> hit,
        numerator == 0 ==> !hit,
{
    rng.gen_ratio(numerator, denominator)
}

/// `SliceRandom::choose`: one element of `choices`, each with equal odds, or
/// `None` when there is nothing to choose from. The contract claims only that
/// the result is one of the choices.
#[verifier::external_body]
pub(crate) fn pick(rng: &mut ThreadRng, choices: &Vec<Color>) -> (choice: Option<Color>)
    ensures
        choices@.len() == 0 ==> choice is None,
        choices@.len() > 0 ==> choice is Some && choices@.contains(choice->0),
{
    choices.choose(rng).copied()
}

} // verus!
