//! Random bytes.

use vstd::prelude::*;

verus! {

/// Calls `rand::RngCore::fill_bytes` on `rand::thread_rng`, which fills the
/// whole buffer. Nothing is known of the bytes but how many there are.
#[verifier::external_body]
pub(crate) fn random_bytes(n: usize) -> (out: Vec<u8>)
    ensures
        out@.len() == n,
{
    let mut out = vec![0u8; n];
    rand::RngCore::fill_bytes(&mut rand::thread_rng(), &mut out);
    out
}

} // verus!
