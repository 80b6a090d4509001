//! Envelope encryption: keys derived from an identifier and a passphrase
//! wrap the material that the stores keep.

use super::constants::{PBKDF2_ITERATIONS, SALT_BASE, SALT_BASE_LEN};
use super::{DbError, ErrorKind};
use crate::crypto::secretbox_chacha20_poly1305::{
    open, opened_bytes, seal, sealed_bytes, Key, Nonce, KEY_LEN, MAX_PLAINTEXT_LEN, NONCE_LEN,
    TAG_LEN,
};
use crate::crypto::sign_ed25519::{
    PublicKey, SecretKey, ED25519_PUBLIC_KEY_LEN, ED25519_SECRET_KEY_LEN,
};
use crate::crypto::utils::generate_nonce;
use crate::crypto::MAX_INPUT_LEN;
use std::num::NonZeroU32;
use vstd::prelude::*;
use vstd::utf8::encode_utf8;

verus! {

/// A rest key: derived on demand, never stored.
pub type Credential = [u8; 32];

/// The key that PBKDF2 with HMAC-SHA256 derives, 32 bytes long, from an
/// iteration count, a salt and a secret.
pub uninterp spec fn derived_key_bytes(iterations: u32, salt: Seq<u8>, secret: Seq<u8>) -> Seq<u8>;

/// Derives with `ring::pbkdf2::derive` and `ring::pbkdf2::PBKDF2_HMAC_SHA256`.
///
/// Trusted: the key is a function of iteration count, salt and secret.
#[verifier::external_body]
fn pbkdf2_derive(iterations: u32, salt: &[u8], secret: &[u8]) -> (out: [u8; 32])
    requires
        iterations > 0,
        salt@.len() <= MAX_INPUT_LEN,
        secret@.len() <= MAX_INPUT_LEN,
    ensures
        out@ == derived_key_bytes(iterations, salt@, secret@),
{
    let rounds = NonZeroU32::new(iterations).expect("a positive iteration count");
    let mut out = [0u8; 32];
    ring::pbkdf2::derive(ring::pbkdf2::PBKDF2_HMAC_SHA256, rounds, salt, secret, &mut out);
    out
}

/// Whether an identifier and a passphrase are short enough to derive a
/// rest key from.
pub open spec fn derivable(id: Seq<char>, passphrase: Seq<char>) -> bool {
    &&& SALT_BASE_LEN + encode_utf8(id).len() <= MAX_INPUT_LEN
    &&& encode_utf8(passphrase).len() <= MAX_INPUT_LEN
}

/// Tests whether an identifier and a passphrase are short enough to derive
/// a rest key from.
pub fn can_derive(id: &str, passphrase: &str) -> (r: bool)
    ensures
        r == derivable(id@, passphrase@),
{
    id.as_bytes().len() as u64 <= MAX_INPUT_LEN - SALT_BASE_LEN as u64
        && passphrase.as_bytes().len() as u64 <= MAX_INPUT_LEN
}

/// Details and attributes for handling security at rest: the nonce that
/// every wrapping uses, the iteration count of the key derivation, and the
/// fixed part of every salt.
#[derive(Debug, Clone, Copy)]
pub struct SecurityAtRest {
    nonce: Nonce,
    pbkdf2_iterations: u32,
    salt_component: [u8; 16],
}

impl SecurityAtRest {
    #[verifier::type_invariant]
    spec fn well_formed(self) -> bool {
        self.pbkdf2_iterations > 0
    }

    /// The nonce of every wrapping.
    pub closed spec fn nonce_bytes(self) -> Seq<u8> {
        self.nonce@
    }

    /// The iteration count of the key derivation.
    pub closed spec fn iterations(self) -> u32 {
        self.pbkdf2_iterations
    }

    /// The fixed part of every salt.
    pub closed spec fn salt_base(self) -> Seq<u8> {
        self.salt_component@
    }

    /// The salt for an identifier: the fixed part, then the identifier's
    /// UTF-8 bytes.
    pub open spec fn salt_for(self, id: Seq<char>) -> Seq<u8> {
        self.salt_base() + encode_utf8(id)
    }

    /// The rest key for an identifier and a passphrase.
    pub open spec fn rest_key_for(self, id: Seq<char>, passphrase: Seq<char>) -> Seq<u8> {
        derived_key_bytes(self.iterations(), self.salt_for(id), encode_utf8(passphrase))
    }

    /// What wrapping `plaintext` under `rest_key` gives.
    pub open spec fn wrapped(self, rest_key: Seq<u8>, plaintext: Seq<u8>) -> Option<Seq<u8>> {
        sealed_bytes(rest_key, self.nonce_bytes(), plaintext)
    }

    /// What unwrapping `ciphertext` under `rest_key` gives.
    pub open spec fn unwrapped(self, rest_key: Seq<u8>, ciphertext: Seq<u8>) -> Option<Seq<u8>> {
        opened_bytes(rest_key, self.nonce_bytes(), ciphertext)
    }

    /// Whether `ciphertext` is the wrapping of `plaintext` under `rest_key`:
    /// it is what wrapping gives, it unwraps to the plaintext, and it is
    /// longer than the plaintext by the tag.
    pub open spec fn wraps(self, rest_key: Seq<u8>, plaintext: Seq<u8>, ciphertext: Seq<u8>) -> bool {
        &&& self.wrapped(rest_key, plaintext) == Some(ciphertext)
        &&& self.unwrapped(rest_key, ciphertext) == Some(plaintext)
        &&& ciphertext.len() == plaintext.len() + TAG_LEN
    }

    /// What unwrapping `ciphertext` under `rest_key` gives where the
    /// plaintext must be `len` bytes long: the plaintext, or the kind of
    /// failure. A ciphertext that does not authenticate is an
    /// `AuthenticationFailed`; a plaintext of another length is a
    /// `MalformedInput`.
    pub open spec fn unwrapped_sized(self, rest_key: Seq<u8>, ciphertext: Seq<u8>, len: nat) -> Result<
        Seq<u8>,
        ErrorKind,
    > {
        match self.unwrapped(rest_key, ciphertext) {
            None => Err(ErrorKind::AuthenticationFailed),
            Some(p) => if p.len() == len {
                Ok(p)
            } else {
                Err(ErrorKind::MalformedInput)
            },
        }
    }

    /// What unwrapping two ciphertexts under one rest key gives: both
    /// plaintexts, or the failure of the first that fails.
    pub open spec fn unwrapped_pair(
        self,
        rest_key: Seq<u8>,
        first: Seq<u8>,
        first_len: nat,
        second: Seq<u8>,
        second_len: nat,
    ) -> Result<(Seq<u8>, Seq<u8>), ErrorKind> {
        match self.unwrapped_sized(rest_key, first, first_len) {
            Err(kind) => Err(kind),
            Ok(a) => match self.unwrapped_sized(rest_key, second, second_len) {
                Err(kind) => Err(kind),
                Ok(b) => Ok((a, b)),
            },
        }
    }

    /// What was wrapped is unwrapped again: a ciphertext that is the
    /// wrapping of a plaintext under a rest key unwraps under that key to
    /// the plaintext; and two such ciphertexts under one rest key unwrap,
    /// as a pair, to their two plaintexts.
    pub proof fn lemma_unwrap_wrapped(
        self,
        rest_key: Seq<u8>,
        first: Seq<u8>,
        wrapped_first: Seq<u8>,
        second: Seq<u8>,
        wrapped_second: Seq<u8>,
    )
        requires
            self.wraps(rest_key, first, wrapped_first),
            self.wraps(rest_key, second, wrapped_second),
        ensures
            self.unwrapped(rest_key, wrapped_first) == Some(first),
            self.unwrapped_sized(rest_key, wrapped_first, first.len()) == Ok::<Seq<u8>, ErrorKind>(
                first,
            ),
            self.unwrapped_pair(rest_key, wrapped_first, first.len(), wrapped_second, second.len())
                == Ok::<(Seq<u8>, Seq<u8>), ErrorKind>((first, second)),
    {
    }

    /// What does not authenticate is not unwrapped: where the first of two
    /// ciphertexts does not authenticate under a rest key, as under the
    /// rest key of a wrong passphrase, unwrapping the pair fails with
    /// `AuthenticationFailed` and gives no plaintext at all; and so it
    /// does where the first unwraps to the length asked for and the second
    /// does not authenticate.
    pub proof fn lemma_unauthenticated_is_not_unwrapped(
        self,
        rest_key: Seq<u8>,
        first: Seq<u8>,
        first_len: nat,
        second: Seq<u8>,
        second_len: nat,
    )
        ensures
            self.unwrapped(rest_key, first) is None ==> self.unwrapped_pair(
                rest_key,
                first,
                first_len,
                second,
                second_len,
            ) == Err::<(Seq<u8>, Seq<u8>), ErrorKind>(ErrorKind::AuthenticationFailed),
            self.unwrapped_sized(rest_key, first, first_len) is Ok && self.unwrapped(rest_key, second)
                is None ==> self.unwrapped_pair(rest_key, first, first_len, second, second_len) == Err::<
                (Seq<u8>, Seq<u8>),
                ErrorKind,
            >(ErrorKind::AuthenticationFailed),
    {
    }

    /// The rest key is a function of the iteration count, the salt base,
    /// the identifier and the passphrase, and of nothing else: two
    /// instances that agree on the first two derive the same rest key from
    /// the same identifier and passphrase, whatever their nonces.
    pub proof fn lemma_rest_key_deterministic(
        self,
        other: SecurityAtRest,
        id: Seq<char>,
        passphrase: Seq<char>,
    )
        requires
            self.iterations() == other.iterations(),
            self.salt_base() == other.salt_base(),
        ensures
            self.rest_key_for(id, passphrase) == other.rest_key_for(id, passphrase),
    {
    }

    /// Creates a new security at rest instance with a fresh nonce, the
    /// default iteration count and the default salt base.
    pub fn new() -> (r: Self)
        ensures
            r.iterations() == PBKDF2_ITERATIONS,
            r.salt_base() == SALT_BASE@,
    {
        SecurityAtRest {
            nonce: Nonce(generate_nonce()),
            pbkdf2_iterations: PBKDF2_ITERATIONS,
            salt_component: SALT_BASE,
        }
    }

    /// The instance with the given nonce, iteration count and salt base,
    /// if the iteration count is positive.
    pub fn with_parameters(nonce: Nonce, pbkdf2_iterations: u32, salt_component: [u8; 16]) -> (r: Option<
        Self,
    >)
        ensures
            r is Some <==> pbkdf2_iterations > 0,
            r matches Some(security) ==> {
                &&& security.nonce_bytes() == nonce@
                &&& security.iterations() == pbkdf2_iterations
                &&& security.salt_base() == salt_component@
            },
    {
        if pbkdf2_iterations == 0 {
            None
        } else {
            Some(SecurityAtRest { nonce, pbkdf2_iterations, salt_component })
        }
    }

    /// The nonce of every wrapping.
    pub fn nonce(&self) -> (r: Nonce)
        ensures
            r@ == self.nonce_bytes(),
    {
        self.nonce
    }

    /// The iteration count of the key derivation.
    pub fn pbkdf2_iterations(&self) -> (r: u32)
        ensures
            r == self.iterations(),
            r > 0,
    {
        proof {
            use_type_invariant(self);
        }
        self.pbkdf2_iterations
    }

    /// The fixed part of every salt.
    pub fn salt_component(&self) -> (r: [u8; 16])
        ensures
            r@ == self.salt_base(),
    {
        self.salt_component
    }

    /// Generates the salt for an identifier.
    pub fn generate_salt(&self, id: &str) -> (salt: Vec<u8>)
        ensures
            salt@ == self.salt_for(id@),
    {
        let mut salt: Vec<u8> = Vec::new();
        salt.extend_from_slice(self.salt_component.as_slice());
        salt.extend_from_slice(id.as_bytes());
        salt
    }

    /// Derives the rest key for an identifier and a passphrase.
    pub fn derive_rest_key(&self, id: &str, passphrase: &str) -> (rest_key: Credential)
        requires
            derivable(id@, passphrase@),
        ensures
            rest_key@ == self.rest_key_for(id@, passphrase@),
    {
        proof {
            use_type_invariant(self);
        }
        let salt = self.generate_salt(id);
        pbkdf2_derive(self.pbkdf2_iterations, salt.as_slice(), passphrase.as_bytes())
    }

    /// Derives the rest key for any identifier and passphrase that a rest
    /// key can be derived from, and none for any other.
    pub fn try_derive_rest_key(&self, id: &str, passphrase: &str) -> (r: Option<Credential>)
        ensures
            r is Some <==> derivable(id@, passphrase@),
            r matches Some(rest_key) ==> rest_key@ == self.rest_key_for(id@, passphrase@),
    {
        if can_derive(id, passphrase) {
            Some(self.derive_rest_key(id, passphrase))
        } else {
            None
        }
    }

    /// Wraps `plaintext` under `rest_key`. Fails, with `MalformedInput`,
    /// exactly when the plaintext is longer than `MAX_PLAINTEXT_LEN`.
    pub fn wrap(&self, rest_key: Credential, plaintext: &[u8]) -> (r: Result<Vec<u8>, DbError>)
        ensures
            r is Ok <==> plaintext@.len() <= MAX_PLAINTEXT_LEN,
            r matches Ok(c) ==> self.wraps(rest_key@, plaintext@, c@),
            r matches Ok(c) ==> c@.len() == plaintext@.len() + TAG_LEN,
            r matches Err(e) ==> e.is_kind(ErrorKind::MalformedInput),
    {
        let mut buffer: Vec<u8> = Vec::new();
        buffer.extend_from_slice(plaintext);
        assert(buffer@ =~= plaintext@);
        match seal(buffer, &self.nonce, &Key(rest_key)) {
            Some(c) => Ok(c),
            None => Err(DbError::new(ErrorKind::MalformedInput)),
        }
    }

    /// Unwraps `ciphertext` under `rest_key`. Fails, with
    /// `AuthenticationFailed`, exactly when the ciphertext does not
    /// authenticate under that key.
    pub fn unwrap(&self, rest_key: Credential, ciphertext: &[u8]) -> (r: Result<Vec<u8>, DbError>)
        ensures
            match r {
                Ok(p) => self.unwrapped(rest_key@, ciphertext@) == Some(p@),
                Err(e) => self.unwrapped(rest_key@, ciphertext@) is None && e.is_kind(
                    ErrorKind::AuthenticationFailed,
                ),
            },
    {
        let mut buffer: Vec<u8> = Vec::new();
        buffer.extend_from_slice(ciphertext);
        assert(buffer@ =~= ciphertext@);
        match open(buffer, &self.nonce, &Key(rest_key)) {
            Some(p) => Ok(p),
            None => Err(DbError::new(ErrorKind::AuthenticationFailed)),
        }
    }

    /// Encrypts a key and nonce for storage: each is wrapped on its own
    /// under `rest_key`.
    pub fn encrypt_key_and_nonce_for_storage(&self, rest_key: Credential, key: Key, nonce: Nonce) -> (r: (
        Vec<u8>,
        Vec<u8>,
    ))
        ensures
            self.wraps(rest_key@, key@, r.0@),
            self.wraps(rest_key@, nonce@, r.1@),
            r.0@.len() == KEY_LEN + TAG_LEN,
            r.1@.len() == NONCE_LEN + TAG_LEN,
    {
        let encrypted_key = match self.wrap(rest_key, key.as_ref()) {
            Ok(c) => c,
            Err(_) => unreached(),
        };
        let encrypted_nonce = match self.wrap(rest_key, nonce.as_ref()) {
            Ok(c) => c,
            Err(_) => unreached(),
        };
        (encrypted_key, encrypted_nonce)
    }

    /// Decrypts a key and nonce from storage.
    pub fn decrypt_key_and_nonce_for_storage(&self, rest_key: Credential, key: Vec<u8>, nonce: Vec<u8>) -> (r:
        Result<(Key, Nonce), DbError>)
        ensures
            match r {
                Ok((k, n)) => self.unwrapped_pair(rest_key@, key@, KEY_LEN as nat, nonce@, NONCE_LEN as nat)
                    == Ok::<(Seq<u8>, Seq<u8>), ErrorKind>((k@, n@)),
                Err(e) => e.reports(
                    self.unwrapped_pair(rest_key@, key@, KEY_LEN as nat, nonce@, NONCE_LEN as nat),
                ),
            },
    {
        let decrypted_key = self.unwrap(rest_key, key.as_slice())?;
        let key = match Key::from_slice(decrypted_key.as_slice()) {
            Some(k) => k,
            None => { return Err(DbError::new(ErrorKind::MalformedInput)); },
        };
        let decrypted_nonce = self.unwrap(rest_key, nonce.as_slice())?;
        match Nonce::from_slice(decrypted_nonce.as_slice()) {
            Some(n) => Ok((key, n)),
            None => Err(DbError::new(ErrorKind::MalformedInput)),
        }
    }

    /// Encrypts a key pair for storage: each half is wrapped on its own
    /// under `rest_key`.
    pub fn encrypt_keys_for_storage(&self, rest_key: Credential, keypair: (PublicKey, SecretKey)) -> (r: (
        Vec<u8>,
        Vec<u8>,
    ))
        ensures
            self.wraps(rest_key@, keypair.0@, r.0@),
            self.wraps(rest_key@, keypair.1@, r.1@),
            r.0@.len() == ED25519_PUBLIC_KEY_LEN + TAG_LEN,
            r.1@.len() == ED25519_SECRET_KEY_LEN + TAG_LEN,
    {
        let pub_key = match self.wrap(rest_key, keypair.0.as_ref()) {
            Ok(c) => c,
            Err(_) => unreached(),
        };
        let secret_key = match self.wrap(rest_key, keypair.1.as_ref()) {
            Ok(c) => c,
            Err(_) => unreached(),
        };
        (pub_key, secret_key)
    }

    /// Decrypts a key pair from storage.
    pub fn decrypt_keys_from_storage(&self, rest_key: Credential, keypair: (Vec<u8>, Vec<u8>)) -> (r: Result<
        (PublicKey, SecretKey),
        DbError,
    >)
        ensures
            match r {
                Ok((pk, sk)) => self.unwrapped_pair(
                    rest_key@,
                    keypair.0@,
                    ED25519_PUBLIC_KEY_LEN as nat,
                    keypair.1@,
                    ED25519_SECRET_KEY_LEN as nat,
                ) == Ok::<(Seq<u8>, Seq<u8>), ErrorKind>((pk@, sk@)),
                Err(e) => e.reports(
                    self.unwrapped_pair(
                        rest_key@,
                        keypair.0@,
                        ED25519_PUBLIC_KEY_LEN as nat,
                        keypair.1@,
                        ED25519_SECRET_KEY_LEN as nat,
                    ),
                ),
            },
    {
        let pub_key = self.unwrap(rest_key, keypair.0.as_slice())?;
        let public = match PublicKey::from_slice(pub_key.as_slice()) {
            Some(k) => k,
            None => { return Err(DbError::new(ErrorKind::MalformedInput)); },
        };
        let secret_key = self.unwrap(rest_key, keypair.1.as_slice())?;
        match SecretKey::from_slice(secret_key.as_slice()) {
            Some(k) => Ok((public, k)),
            None => Err(DbError::new(ErrorKind::MalformedInput)),
        }
    }
}

} // verus!
