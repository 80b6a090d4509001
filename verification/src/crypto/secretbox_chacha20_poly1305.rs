//! Authenticated encryption with ChaCha20-Poly1305.

use super::array_of;
use ring::aead::{Aad, LessSafeKey, UnboundKey, CHACHA20_POLY1305};
use vstd::prelude::*;

verus! {

/// Length of a key in bytes.
pub const KEY_LEN: usize = 32;

/// Length of a nonce in bytes.
pub const NONCE_LEN: usize = 12;

/// Length of the authentication tag that sealing appends.
pub const TAG_LEN: usize = 16;

/// Longest plaintext, in bytes, that one sealing accepts.
pub const MAX_PLAINTEXT_LEN: u64 = 274_877_906_880;

/// A symmetric key.
#[derive(Clone, Copy, Debug, PartialEq, Eq)]
pub struct Key(pub [u8; 32]);

/// A nonce for one sealing.
#[derive(Clone, Copy, Debug, PartialEq, Eq)]
pub struct Nonce(pub [u8; 12]);

impl View for Key {
    type V = Seq<u8>;

    open spec fn view(&self) -> Seq<u8> {
        self.0@
    }
}

impl View for Nonce {
    type V = Seq<u8>;

    open spec fn view(&self) -> Seq<u8> {
        self.0@
    }
}

impl Key {
    /// The key made of exactly these bytes, if there are `KEY_LEN` of them.
    pub fn from_slice(bytes: &[u8]) -> (r: Option<Key>)
        ensures
            r is Some <==> bytes@.len() == KEY_LEN,
            r matches Some(k) ==> k@ == bytes@,
    {
        match array_of::<32>(bytes) {
            Some(array) => Some(Key(array)),
            None => None,
        }
    }

    /// The bytes of the key.
    pub fn as_ref(&self) -> (r: &[u8])
        ensures
            r@ == self@,
    {
        self.0.as_slice()
    }
}

impl Nonce {
    /// The nonce made of exactly these bytes, if there are `NONCE_LEN` of them.
    pub fn from_slice(bytes: &[u8]) -> (r: Option<Nonce>)
        ensures
            r is Some <==> bytes@.len() == NONCE_LEN,
            r matches Some(n) ==> n@ == bytes@,
    {
        match array_of::<12>(bytes) {
            Some(array) => Some(Nonce(array)),
            None => None,
        }
    }

    /// The bytes of the nonce.
    pub fn as_ref(&self) -> (r: &[u8])
        ensures
            r@ == self@,
    {
        self.0.as_slice()
    }
}

/// What sealing `plaintext` under `key` and `nonce` yields: the ciphertext
/// followed by its tag, or `None` where the plaintext is too long.
pub uninterp spec fn sealed_bytes(key: Seq<u8>, nonce: Seq<u8>, plaintext: Seq<u8>) -> Option<Seq<u8>>;

/// What opening `sealed` under `key` and `nonce` yields: the plaintext, or
/// `None` where the tag does not authenticate the input.
pub uninterp spec fn opened_bytes(key: Seq<u8>, nonce: Seq<u8>, sealed: Seq<u8>) -> Option<Seq<u8>>;

/// Seals with `ring::aead::LessSafeKey::seal_in_place_append_tag`, with no
/// associated data.
///
/// Trusted: the output is a function of key, nonce and plaintext; sealing
/// succeeds exactly when the plaintext is no longer than
/// `MAX_PLAINTEXT_LEN`; the output is `TAG_LEN` bytes longer than the
/// plaintext; and opening it under the same key and nonce gives the
/// plaintext back.
#[verifier::external_body]
pub(crate) fn seal(plain_text: Vec<u8>, nonce: &Nonce, key: &Key) -> (r: Option<Vec<u8>>)
    ensures
        r is Some <==> plain_text@.len() <= MAX_PLAINTEXT_LEN,
        r matches Some(c) ==> sealed_bytes(key@, nonce@, plain_text@) == Some(c@),
        r matches Some(c) ==> c@.len() == plain_text@.len() + TAG_LEN,
        r matches Some(c) ==> opened_bytes(key@, nonce@, c@) == Some(plain_text@),
        r is None ==> sealed_bytes(key@, nonce@, plain_text@) is None,
{
    let sealing = LessSafeKey::new(UnboundKey::new(&CHACHA20_POLY1305, &key.0).ok()?);
    let nonce = ring::aead::Nonce::assume_unique_for_key(nonce.0);
    let mut in_out = plain_text;
    sealing.seal_in_place_append_tag(nonce, Aad::empty(), &mut in_out).ok()?;
    Some(in_out)
}

/// Opens with `ring::aead::LessSafeKey::open_in_place`, with no associated
/// data.
///
/// Trusted: whether opening succeeds, and the plaintext it gives, are a
/// function of key, nonce and input; a plaintext is `TAG_LEN` bytes
/// shorter than the input.
#[verifier::external_body]
pub(crate) fn open(cipher_text: Vec<u8>, nonce: &Nonce, key: &Key) -> (r: Option<Vec<u8>>)
    ensures
        r matches Some(p) ==> opened_bytes(key@, nonce@, cipher_text@) == Some(p@),
        r matches Some(p) ==> p@.len() + TAG_LEN == cipher_text@.len(),
        r is None ==> opened_bytes(key@, nonce@, cipher_text@) is None,
{
    let opening = LessSafeKey::new(UnboundKey::new(&CHACHA20_POLY1305, &key.0).ok()?);
    let nonce = ring::aead::Nonce::assume_unique_for_key(nonce.0);
    let mut in_out = cipher_text;
    let len = opening.open_in_place(nonce, Aad::empty(), &mut in_out).ok()?.len();
    in_out.truncate(len);
    Some(in_out)
}

} // verus!
