//! SHA-256 digests, and fingerprints made of them.

use super::hex::{hex_text, to_hex};
use super::MAX_INPUT_LEN;
use vstd::prelude::*;

verus! {

/// Length of a digest in bytes.
pub const DIGEST_LEN: usize = 32;

/// The SHA-256 digest of `data`.
pub uninterp spec fn digest_bytes(data: Seq<u8>) -> Seq<u8>;

/// Digests with `ring::digest::digest` and `ring::digest::SHA256`.
///
/// Trusted: the digest is a function of the input alone.
#[verifier::external_body]
pub(crate) fn digest(data: &[u8]) -> (r: [u8; 32])
    requires
        data@.len() <= MAX_INPUT_LEN,
    ensures
        r@ == digest_bytes(data@),
{
    let mut out = [0u8; 32];
    out.copy_from_slice(ring::digest::digest(&ring::digest::SHA256, data).as_ref());
    out
}

/// The fingerprint of `data`: the hexadecimal text of its SHA-256 digest.
pub open spec fn fingerprint_text(data: Seq<u8>) -> Seq<char> {
    hex_text(digest_bytes(data))
}

/// Computes the fingerprint of `data`.
pub fn fingerprint(data: &[u8]) -> (r: String)
    requires
        data@.len() <= MAX_INPUT_LEN,
    ensures
        r@ == fingerprint_text(data@),
{
    let d = digest(data);
    to_hex(d.as_slice())
}

} // verus!
