//! Fresh random material.

use rand::RngCore;
use vstd::prelude::*;

verus! {

/// Overwrites a buffer with fresh random bytes, from `rand::thread_rng`
/// and `rand::RngCore::fill_bytes`.
///
/// Trusted: the buffer keeps its length. Nothing is claimed of the bytes.
#[verifier::external_body]
fn fill_random(buffer: &mut [u8])
    ensures
        final(buffer)@.len() == old(buffer)@.len(),
{
    rand::thread_rng().fill_bytes(buffer);
}

/// Twelve fresh random bytes.
pub fn generate_nonce() -> [u8; 12] {
    let mut nonce = [0u8; 12];
    fill_random(&mut nonce);
    nonce
}

/// Thirty-two fresh random bytes.
pub fn generate_key() -> [u8; 32] {
    let mut key = [0u8; 32];
    fill_random(&mut key);
    key
}

} // verus!
