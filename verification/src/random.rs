use rand::Rng;
use vstd::prelude::*;

verus! {

/// Draws a `u32` from `rand::thread_rng()` with `Rng::gen`.
///
/// Trusted: the value comes from a generator that the operating system
/// seeds, so nothing is claimed of it beyond its type.
#[verifier::external_body]
fn thread_rng_u32() -> u32 {
    rand::thread_rng().gen::<u32>()
}

/// Kept for callers that seed explicitly; the generator seeds itself.
pub fn seed_random() {
}

/// A fresh random 32-bit number.  Two calls may return anything, including
/// the same value; the generator makes that unlikely.
pub fn generate_random() -> u32 {
    thread_rng_u32()
}

/// Sets up (`init`) or tears down the crypto library's random source.  Built
/// without such a library, there is nothing to do.
fn manage_random(init: bool) {
    if init {
    } else {
    }
}

pub fn random_open() {
    manage_random(true);
}

pub fn random_close() {
    manage_random(false);
}

} // verus!
