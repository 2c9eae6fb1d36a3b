//! The source of random bytes.

use vstd::prelude::*;

verus! {

/// Draws a byte from `rand::random`, which takes it from the thread-local
/// generator of the `rand` crate. Nothing is claimed of the byte: any value
/// may come back, and two draws need not agree.
#[verifier::external_body]
pub(crate) fn random_byte() -> (byte: u8) {
    rand::random::<u8>()
}

} // verus!
