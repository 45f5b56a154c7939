use vstd::prelude::*;
use rand::distributions::Bernoulli;
use rand::distributions::Distribution;

verus! {

#[verifier::external_type_specification]
#[verifier::external_body]
pub struct ExBernoulli(Bernoulli);

/// Relies on rand's `Bernoulli::from_ratio`: building a
/// numerator-in-denominator distribution succeeds for every
/// `numerator <= denominator` with `denominator > 0`.
#[verifier::external_body]
pub(crate) fn bernoulli_from_ratio(numerator: u32, denominator: u32) -> Bernoulli
    requires
        numerator <= denominator,
        denominator >= 1,
{
    Bernoulli::from_ratio(numerator, denominator).unwrap()
}

/// Relies on rand's `Distribution::sample` over `thread_rng`: one Bernoulli
/// draw. The outcome is random, so nothing is promised of it; callers must
/// hold for either value.
#[verifier::external_body]
pub(crate) fn bernoulli_sample(distr: &Bernoulli) -> bool {
    distr.sample(&mut rand::thread_rng())
}

} // verus!
