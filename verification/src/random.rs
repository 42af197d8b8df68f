//! Random integers, drawn from the thread's generator.

use vstd::prelude::*;
use rand::Rng;
use rand::rngs::ThreadRng;

verus! {

/// The thread-local generator of the `rand` crate, `rand::rngs::ThreadRng`,
/// as a type that is carried through and never looked into.
#[verifier::external_type_specification]
#[verifier::external_body]
pub struct ExThreadRng(ThreadRng);

/// One draw from the half-open range `min..max`.
///
/// Calls `rand::Rng::gen_range` on the range. That function panics on an empty
/// range, which the precondition leaves out; for integers it returns `min`
/// plus an offset below the range's width. Nothing more is claimed of the
/// draw.
///
/// The thread's generator also panics when the operating system denies it
/// fresh entropy at a reseed. That depends on the machine and on no argument,
/// so no precondition can leave it out; like running out of memory, it ends
/// the render.
#[verifier::external_body]
fn sample_range(min: i32, max: i32, rng: &mut ThreadRng) -> (n: i32)
    requires
        min < max,
    ensures
        min <= n < max,
{
    rng.gen_range(min..max)
}

/// A random integer from `min` up to, and not including, `max`.
pub fn gen_int(min: i32, max: i32, rng: &mut ThreadRng) -> (n: i32)
    requires
        min < max,
    ensures
        min <= n < max,
{
    sample_range(min, max, rng)
}

} // verus!
