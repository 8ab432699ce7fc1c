//! Trusted boundary to `rand`: the draw that decides simulated packet loss.

use vstd::prelude::*;
use rand::RngExt;

verus! {

/// Granularity of the stored packet drop rate: a rate is a number of
/// millionths, so `PDR_UNIT` stands for certain loss.
pub const PDR_UNIT: u32 = 1000000;

/// Relies on `rand::RngExt::random_range` over the thread's generator: the
/// result is uniform in the half-open range it is given, here
/// `0..PDR_UNIT`.  The value is random, so only its bound is promised.
#[verifier::external_body]
pub(crate) fn draw_loss_lot() -> (r: u32)
    ensures
        r < PDR_UNIT,
{
    rand::rng().random_range(0..PDR_UNIT)
}

} // verus!
