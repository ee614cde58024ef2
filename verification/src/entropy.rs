use rand::Rng;
use vstd::prelude::*;

verus! {

/// Draws one byte with `rand::thread_rng().gen::<u8>()`.
///
/// Nothing is claimed of the byte: the generator is seeded by the operating
/// system, so every value can come back and two draws need not agree. The
/// call takes no input; it panics only where the operating system cannot
/// seed the generator at all.
#[verifier::external_body]
pub(crate) fn random_byte() -> (byte: u8) {
    rand::thread_rng().gen::<u8>()
}

} // verus!
