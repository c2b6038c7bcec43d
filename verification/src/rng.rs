//! The randomized tie-breaking draws the substance rules use. Each draw is a
//! thin trusted wrapper over the `rand` crate; the contracts state only the
//! range of the draw, which is all that holds of every outcome.

use vstd::prelude::*;
use rand::Rng;

verus! {

/// Relies on rand::Rng::gen_range over the range -1..2: a uniform draw from
/// {-1, 0, 1}. gen_range panics only on an empty range, which this is not.
#[verifier::external_body]
pub(crate) fn random_offset() -> (r: isize)
    ensures
        -1 <= r <= 1,
{
    rand::thread_rng().gen_range(-1..2)
}

/// Relies on rand::Rng::gen_range over the range 0..10: a uniform draw from
/// the ten values 0 through 9, used for the probability rolls.
#[verifier::external_body]
pub(crate) fn random_digit() -> (r: u8)
    ensures
        r < 10,
{
    rand::thread_rng().gen_range(0u8..10u8)
}

/// Relies on rand::Rng::gen_range over the range 100..250: a uniform draw for
/// a fresh smoke lifetime.
#[verifier::external_body]
pub(crate) fn random_lifetime() -> (r: u8)
    ensures
        100 <= r < 250,
{
    rand::thread_rng().gen_range(100u8..250u8)
}

} // verus!
