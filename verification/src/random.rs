//! The source of chance: the thread's generator of the `rand` crate.
//!
//! Nothing here is proved. Each item states what `rand` documents, and the
//! generators are verified for every outcome of a draw.

use vstd::prelude::*;
use rand::rngs::ThreadRng;
use rand::Rng;

verus! {

/// `rand::rngs::ThreadRng`, a handle to the generator of the current thread.
/// Nothing is known of its state.
#[verifier::external_type_specification]
#[verifier::external_body]
pub struct ExThreadRng(ThreadRng);

/// Calls `rand::thread_rng`, which hands out a handle to the generator of the
/// current thread. Nothing is claimed of the handle. The generator is seeded
/// from the operating system when a thread first asks for it; `rand` panics
/// there if the system gives it no seed.
#[verifier::external_body]
pub(crate) fn thread_generator() -> ThreadRng {
    rand::thread_rng()
}

/// Calls `rand::Rng::gen_ratio` on the handle: a draw that is `true` with
/// probability `numerator / denominator`. `rand` panics on a denominator of
/// zero and on a numerator above the denominator, so both are excluded. It
/// documents two certain outcomes, which are all that is claimed: `true`
/// where numerator and denominator are equal, `false` where the numerator is
/// zero.
#[verifier::external_body]
pub(crate) fn draw_ratio(rng: &mut ThreadRng, numerator: u32, denominator: u32) -> (chosen: bool)
    requires
        denominator > 0,
        numerator <= denominator,
    ensures
        numerator == denominator ==> chosen,
        numerator == 0 ==> !chosen,
{
    rng.gen_ratio(numerator, denominator)
}

} // verus!
