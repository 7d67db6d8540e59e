//! Where initial centroids come from: sources of random scalars.

use rand::Rng;
use vstd::prelude::*;
use crate::scalar::Scalar;

verus! {

/// A stateful generator of scalars in a half-open range.
///
/// Successive draws may differ; all that is known of a draw is that it lies
/// in `[lower, upper)`.
pub trait RandomSource<T: Scalar> {
    /// Draws the next scalar from `[lower, upper)`.
    fn draw(&mut self, lower: T, upper: T) -> (r: T)
        requires
            lower.precedes(upper),
        ensures
            !r.precedes(lower),
            r.precedes(upper),
    ;
}

/// `rand::rngs::ThreadRng`, the handle to the generator that `rand` keeps for
/// each thread. The type is taken as opaque: nothing of its state is visible
/// to the proofs.
#[verifier::external_type_specification]
#[verifier::external_body]
pub struct ExThreadRng(rand::rngs::ThreadRng);

/// A scalar that the thread's own generator can produce.
pub trait Sampled: Scalar {
    /// Draws a scalar from `[lower, upper)` with the thread's generator.
    fn sample(rng: &mut rand::rngs::ThreadRng, lower: Self, upper: Self) -> (r: Self)
        requires
            lower.precedes(upper),
        ensures
            !r.precedes(lower),
            r.precedes(upper),
    ;
}

/// Calls `rand::thread_rng`. Trusted: it returns a handle to the calling
/// thread's generator, of which nothing is claimed. The generator is seeded
/// from the operating system on a thread's first call, and `rand` panics if
/// the system yields no entropy.
#[verifier::external_body]
fn thread_generator() -> (rng: rand::rngs::ThreadRng) {
    rand::thread_rng()
}

/// Calls `rand::Rng::gen_range` on the thread's generator for `i64`.
/// Trusted: for `lower < upper` the call returns, and the value lies in
/// `[lower, upper)`; `rand` computes it as `lower` plus an offset below
/// `upper - lower`. The call panics when `lower >= upper`, which the
/// precondition leaves out.
#[verifier::external_body]
fn thread_range(rng: &mut rand::rngs::ThreadRng, lower: i64, upper: i64) -> (r: i64)
    requires
        lower < upper,
    ensures
        lower <= r < upper,
{
    rng.gen_range(lower, upper)
}

impl Sampled for i64 {
    fn sample(rng: &mut rand::rngs::ThreadRng, lower: i64, upper: i64) -> (r: i64) {
        thread_range(rng, lower, upper)
    }
}

/// The source used where none is supplied: the calling thread's generator,
/// seeded by the system and different on every run.
pub struct ThreadSource {
    rng: rand::rngs::ThreadRng,
}

impl ThreadSource {
    /// Takes hold of the calling thread's generator.
    pub fn new() -> (source: ThreadSource) {
        ThreadSource { rng: thread_generator() }
    }
}

impl<T: Sampled> RandomSource<T> for ThreadSource {
    fn draw(&mut self, lower: T, upper: T) -> (r: T) {
        T::sample(&mut self.rng, lower, upper)
    }
}

} // verus!
