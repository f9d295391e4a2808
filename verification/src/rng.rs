//! The one chance source of the simulation.

use vstd::prelude::*;

verus! {

/// Relies on `rand::Rng::gen_range` over `rand::thread_rng`: a uniform
/// draw in `[0, n)`; the range is non-empty, so the call returns.
/// Nothing is assumed of which value comes back.
#[verifier::external_body]
pub fn draw_below(n: u64) -> (r: u64)
    requires
        n > 0,
    ensures
        r < n,
{
    rand::Rng::gen_range(&mut rand::thread_rng(), 0..n)
}

} // verus!
