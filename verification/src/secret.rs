//! Erasure of secret bytes. A password is held only as long as it
//! takes to compose the authentication command, then overwritten.

use vstd::prelude::*;

use zeroize::Zeroize;

verus! {

/// Relies on `zeroize::Zeroize` for `Vec<u8>`: `zeroize` overwrites
/// the initialized elements and the spare capacity with zeros and
/// then clears the vector, so it comes back empty.
#[verifier::external_body]
pub(crate) fn wipe_bytes(buf: &mut Vec<u8>)
    ensures
        final(buf)@.len() == 0,
{
    buf.zeroize();
}

} // verus!
