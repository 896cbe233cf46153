//! The machine's one source of chance.

use vstd::prelude::*;

verus! {

/// Relies on rand::random::<u8>: draws one byte from the thread-local
/// generator.  Nothing is assumed of its value.
#[verifier::external_body]
pub(crate) fn random_byte() -> u8 {
    rand::random::<u8>()
}

} // verus!
