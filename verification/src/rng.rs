//! The library's only source of randomness: the thread-local generator of
//! the `rand` crate, behind two trusted declarations.

use vstd::prelude::*;

use rand::Rng;

verus! {

#[verifier::external_type_specification]
#[verifier::external_body]
pub struct ExThreadRng(rand::rngs::ThreadRng);

/// Relies on `rand::thread_rng`: a handle to the lazily-seeded thread-local
/// generator.  Nothing is assumed about the values it will produce.
#[verifier::external_body]
pub fn thread_rng() -> rand::rngs::ThreadRng {
    rand::thread_rng()
}

/// Relies on `rand::Rng::gen_range`: a draw from the inclusive range
/// `0..=SCALE`, so the result is a fixed-point scalar in `[0, 1]`.  Which
/// value comes back is not assumed; two draws may differ.
#[verifier::external_body]
pub fn rand_unit(rng: &mut rand::rngs::ThreadRng) -> (r: i64)
    ensures
        0 <= r <= crate::fixed::SCALE,
{
    rng.gen_range(0..=crate::fixed::SCALE)
}

} // verus!
