//! The one source of chance.

use rand::Rng;
use vstd::prelude::*;

verus! {

/// `rand::Rng::gen_range` on the thread's generator, `rand::thread_rng()`, with the
/// range `low..high`: some number of that range. Which one is left open, and two
/// calls may differ.
#[verifier::external_body]
pub(crate) fn random_in(low: u8, high: u8) -> (r: u8)
    requires
        low < high,
    ensures
        low <= r < high,
{
    rand::thread_rng().gen_range(low..high)
}

} // verus!
