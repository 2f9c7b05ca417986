//! Random numbers.
use rand::Rng;
use vstd::prelude::*;

verus! {

/// `rand::Rng::gen_range` of the thread's generator over `0..=max`: any number up to `max`.
#[verifier::external_body]
pub(crate) fn random_up_to(max: u128) -> (r: u128)
    ensures
        r <= max,
{
    rand::thread_rng().gen_range(0..=max)
}

/// `rand::Rng::gen_range` of the thread's generator over `0..end`: any number below `end`.
#[verifier::external_body]
pub(crate) fn random_below(end: u128) -> (r: u128)
    requires
        end > 0,
    ensures
        r < end,
{
    rand::thread_rng().gen_range(0..end)
}

} // verus!
