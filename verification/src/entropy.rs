//! The machine's one source of chance.

use rand::Rng;
use vstd::prelude::*;

verus! {

/// Draws a byte from `rand::thread_rng()` with `Rng::gen`. Nothing is
/// claimed of the byte: every value may come back, and two calls may differ.
/// The generator is seeded from the system on a thread's first call and
/// seeded anew from time to time; it panics where the system then has no
/// entropy to give.
#[verifier::external_body]
pub(crate) fn random_byte() -> (byte: u8) {
    rand::thread_rng().gen::<u8>()
}

} // verus!
