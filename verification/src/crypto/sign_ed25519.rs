//! Detached Ed25519 signatures.

use super::{array_of, MAX_INPUT_LEN};
use ring::signature::{Ed25519KeyPair, KeyPair, UnparsedPublicKey, ED25519};
use vstd::prelude::*;

verus! {

/// Length of a public key in bytes.
pub const ED25519_PUBLIC_KEY_LEN: usize = 32;

/// Length of a secret key, the seed of a key pair, in bytes.
pub const ED25519_SECRET_KEY_LEN: usize = 32;

/// Length of a signature in bytes.
pub const ED25519_SIGNATURE_LEN: usize = 64;

/// The public half of a key pair.
#[derive(Clone, Copy, Debug, PartialEq, Eq)]
pub struct PublicKey(pub [u8; 32]);

/// The secret half of a key pair: the seed that the pair is made from.
#[derive(Clone, Copy, Debug, PartialEq, Eq)]
pub struct SecretKey(pub [u8; 32]);

/// A detached signature.
#[derive(Clone, Copy, Debug, PartialEq, Eq)]
pub struct Signature(pub [u8; 64]);

impl View for PublicKey {
    type V = Seq<u8>;

    open spec fn view(&self) -> Seq<u8> {
        self.0@
    }
}

impl View for SecretKey {
    type V = Seq<u8>;

    open spec fn view(&self) -> Seq<u8> {
        self.0@
    }
}

impl View for Signature {
    type V = Seq<u8>;

    open spec fn view(&self) -> Seq<u8> {
        self.0@
    }
}

impl PublicKey {
    /// The public key made of exactly these bytes, if there are
    /// `ED25519_PUBLIC_KEY_LEN` of them.
    pub fn from_slice(bytes: &[u8]) -> (r: Option<PublicKey>)
        ensures
            r is Some <==> bytes@.len() == ED25519_PUBLIC_KEY_LEN,
            r matches Some(k) ==> k@ == bytes@,
    {
        match array_of::<32>(bytes) {
            Some(array) => Some(PublicKey(array)),
            None => None,
        }
    }

    /// The bytes of the key.
    pub fn as_ref(&self) -> (r: &[u8])
        ensures
            r@ == self@,
    {
        self.0.as_slice()
    }
}

impl SecretKey {
    /// The secret key made of exactly these bytes, if there are
    /// `ED25519_SECRET_KEY_LEN` of them.
    pub fn from_slice(bytes: &[u8]) -> (r: Option<SecretKey>)
        ensures
            r is Some <==> bytes@.len() == ED25519_SECRET_KEY_LEN,
            r matches Some(k) ==> k@ == bytes@,
    {
        match array_of::<32>(bytes) {
            Some(array) => Some(SecretKey(array)),
            None => None,
        }
    }

    /// The bytes of the key.
    pub fn as_ref(&self) -> (r: &[u8])
        ensures
            r@ == self@,
    {
        self.0.as_slice()
    }
}

impl Signature {
    /// The signature made of exactly these bytes, if there are
    /// `ED25519_SIGNATURE_LEN` of them.
    pub fn from_slice(bytes: &[u8]) -> (r: Option<Signature>)
        ensures
            r is Some <==> bytes@.len() == ED25519_SIGNATURE_LEN,
            r matches Some(s) ==> s@ == bytes@,
    {
        match array_of::<64>(bytes) {
            Some(array) => Some(Signature(array)),
            None => None,
        }
    }

    /// The bytes of the signature.
    pub fn as_ref(&self) -> (r: &[u8])
        ensures
            r@ == self@,
    {
        self.0.as_slice()
    }
}

/// The public key of the pair that is made from `seed`.
pub uninterp spec fn public_key_bytes(seed: Seq<u8>) -> Seq<u8>;

/// The signature that the pair made from `seed` gives to `msg`.
pub uninterp spec fn signature_bytes(seed: Seq<u8>, msg: Seq<u8>) -> Seq<u8>;

/// Whether `signature` is one of `msg` under `public_key`.
pub uninterp spec fn signature_valid(public_key: Seq<u8>, msg: Seq<u8>, signature: Seq<u8>) -> bool;

/// The public key that belongs to a secret key, from
/// `ring::signature::Ed25519KeyPair::from_seed_unchecked` and `public_key`.
///
/// Trusted: the public key is a function of the seed alone.
#[verifier::external_body]
pub(crate) fn public_key_of(sk: &SecretKey) -> (pk: PublicKey)
    ensures
        pk@ == public_key_bytes(sk@),
{
    let pair = Ed25519KeyPair::from_seed_unchecked(&sk.0).expect("a seed of 32 bytes");
    let mut out = [0u8; 32];
    out.copy_from_slice(pair.public_key().as_ref());
    PublicKey(out)
}

/// Signs with `ring::signature::Ed25519KeyPair::sign`, the pair made by
/// `from_seed_unchecked`.
///
/// Trusted: the signature is a function of seed and message, and it is
/// valid for the message under the public key of that seed.
#[verifier::external_body]
pub(crate) fn sign_detached(msg: &[u8], sk: &SecretKey) -> (sig: Signature)
    requires
        msg@.len() <= MAX_INPUT_LEN,
    ensures
        sig@ == signature_bytes(sk@, msg@),
        signature_valid(public_key_bytes(sk@), msg@, sig@),
{
    let pair = Ed25519KeyPair::from_seed_unchecked(&sk.0).expect("a seed of 32 bytes");
    let mut out = [0u8; 64];
    out.copy_from_slice(pair.sign(msg).as_ref());
    Signature(out)
}

/// Verifies with `ring::signature::UnparsedPublicKey::verify` and
/// `ring::signature::ED25519`.
///
/// Trusted: the verdict is a function of signature, message and public key.
#[verifier::external_body]
pub(crate) fn verify_detached(sig: &Signature, msg: &[u8], pk: &PublicKey) -> (ok: bool)
    requires
        msg@.len() <= MAX_INPUT_LEN,
    ensures
        ok == signature_valid(pk@, msg@, sig@),
{
    UnparsedPublicKey::new(&ED25519, &pk.0).verify(msg, &sig.0).is_ok()
}

} // verus!
