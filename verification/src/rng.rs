//! The noise source: a small, fast pseudo-random generator from the `rand`
//! crate, behind trusted wrappers that state only what holds of every
//! outcome (the range of the draw).

use vstd::prelude::*;
use rand::rngs::SmallRng;
use crate::fixed::Q_ONE;

verus! {

#[verifier::external_type_specification]
#[verifier::external_body]
pub struct ExSmallRng(SmallRng);

/// Relies on rand's `Rng::random_range` over the integer range 0..7: the
/// draw lies in that range. Used to resolve a `Random` waveform choice into
/// one of the seven concrete waveforms.
#[verifier::external_body]
pub(crate) fn draw_waveform_index(rng: &mut SmallRng) -> (r: u64)
    ensures
        r < 7,
{
    rand::Rng::random_range(rng, 0u64..7u64)
}

/// Relies on rand's `Rng::random_range` over a symmetric integer range: a
/// noise sample drawn from [-1, 1) in Q30.
#[verifier::external_body]
pub(crate) fn draw_noise(rng: &mut SmallRng) -> (r: i64)
    ensures
        -Q_ONE <= r < Q_ONE,
{
    rand::Rng::random_range(rng, -Q_ONE..Q_ONE)
}

} // verus!
