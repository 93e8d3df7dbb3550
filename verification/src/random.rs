use vstd::prelude::*;

verus! {

/// Draws one byte with `rand::random`, which samples the thread-local
/// generator. Nothing is claimed of the byte: to the verifier every value
/// of a `u8` may come back, and two calls may differ.
#[verifier::external_body]
pub(crate) fn random_byte() -> (byte: u8) {
    rand::random::<u8>()
}

} // verus!
