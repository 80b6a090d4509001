//! Primitive layer: authenticated encryption, signatures, digests and
//! random material. Everything here is a thin, stateless boundary to the
//! cryptographic back end.

pub mod hex;
pub mod secretbox_chacha20_poly1305;
pub mod sha256;
pub mod sign_ed25519;
pub mod utils;

use vstd::prelude::*;

verus! {

/// Longest input, in bytes, that is handed to a digest: the digests count
/// their input in bits, in 64 bits.
pub const MAX_INPUT_LEN: u64 = 0x1000_0000_0000_0000;

/// The array made of exactly these bytes, if there are `N` of them.
pub fn array_of<const N: usize>(bytes: &[u8]) -> (r: Option<[u8; N]>)
    ensures
        r is Some <==> bytes@.len() == N,
        r matches Some(array) ==> array@ == bytes@,
{
    if bytes.len() != N {
        return None;
    }
    let mut out = [0u8; N];
    let mut i: usize = 0;
    while i < N
        invariant
            i <= N,
            bytes@.len() == N,
            forall|j: int| 0 <= j < i ==> out@[j] == bytes@[j],
        decreases N - i,
    {
        out[i] = bytes[i];
        i += 1;
    }
    Some(out)
}

} // verus!
