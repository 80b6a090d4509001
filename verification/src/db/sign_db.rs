//! The signature store: for each identity, an Ed25519 key pair wrapped
//! under a rest key, found through a table from identifiers to the
//! fingerprints of public keys.

use super::constants::{
    PBKDF2_ITERATIONS, SALT_BASE, SIG_COLLECTION, SIG_ID_COLLECTION, SIG_TTL,
};
use super::record::{
    frame, frameable, framed, lemma_unframed_framed, text_of, unframe, unframed, views,
};
use super::security::{can_derive, derivable, SecurityAtRest};
use super::storage::{
    collection_key, fetched_bytes, get_record, key_in, lemma_keys_differ, open_db, opened_at,
    put_record, stored_records,
};
use super::{fails_with, DbError, ErrorKind};
use crate::crypto::secretbox_chacha20_poly1305::TAG_LEN;
use crate::crypto::sha256::{fingerprint, fingerprint_text};
use crate::crypto::sign_ed25519::{
    public_key_bytes, public_key_of, sign_detached, signature_bytes, signature_valid,
    verify_detached, PublicKey, SecretKey, Signature, ED25519_PUBLIC_KEY_LEN,
    ED25519_SECRET_KEY_LEN,
};
use crate::crypto::utils::generate_key;
use crate::crypto::MAX_INPUT_LEN;
use vstd::bytes::{
    lemma_auto_spec_u64_to_from_le_bytes, spec_u64_from_le_bytes, spec_u64_to_le_bytes,
    u64_from_le_bytes, u64_to_le_bytes,
};
use vstd::prelude::*;
use vstd::slice::slice_to_vec;
use vstd::utf8::{
    decode_utf8, encode_utf8, encode_utf8_decode_utf8, encode_utf8_valid_utf8,
    is_ascii_chars_encode_utf8, valid_utf8,
};

verus! {

/// Data for signing: a key pair, each half wrapped, under the fingerprint
/// of its public key.
#[derive(Debug, Clone)]
pub struct SigningEntry {
    pub pk_hash: String,
    pub pub_key: Vec<u8>,
    pub secret_key: Vec<u8>,
    pub ttl: u32,
    pub timestamp: String,
}

/// What a signing entry holds.
pub struct SigningEntryView {
    pub pk_hash: Seq<char>,
    pub pub_key: Seq<u8>,
    pub secret_key: Seq<u8>,
    pub ttl: u32,
    pub timestamp: Seq<char>,
}

impl View for SigningEntry {
    type V = SigningEntryView;

    open spec fn view(&self) -> SigningEntryView {
        SigningEntryView {
            pk_hash: self.pk_hash@,
            pub_key: self.pub_key@,
            secret_key: self.secret_key@,
            ttl: self.ttl,
            timestamp: self.timestamp@,
        }
    }
}

/// Identifier for a signing entry: the fingerprint that an identifier
/// stands for.
#[derive(Debug, Clone)]
pub struct SigningId {
    pub id: String,
    pub pk_hash: String,
}

/// What a signing identifier holds.
pub struct SigningIdView {
    pub id: Seq<char>,
    pub pk_hash: Seq<char>,
}

impl View for SigningId {
    type V = SigningIdView;

    open spec fn view(&self) -> SigningIdView {
        SigningIdView { id: self.id@, pk_hash: self.pk_hash@ }
    }
}

impl SigningIdView {
    /// The fields of the stored record: the identifier and the
    /// fingerprint, as UTF-8.
    pub open spec fn fields(self) -> Seq<Seq<u8>> {
        seq![encode_utf8(self.id), encode_utf8(self.pk_hash)]
    }

    /// The stored record.
    pub open spec fn to_bytes(self) -> Seq<u8> {
        framed(self.fields())
    }

    /// The identifier that a list of fields stands for, if it stands for
    /// one.
    pub open spec fn from_fields(fields: Seq<Seq<u8>>) -> Option<SigningIdView> {
        if fields.len() == 2 && valid_utf8(fields[0]) && valid_utf8(fields[1]) {
            Some(SigningIdView { id: decode_utf8(fields[0]), pk_hash: decode_utf8(fields[1]) })
        } else {
            None
        }
    }

    /// The identifier that a stored record stands for, if it stands for
    /// one.
    pub open spec fn from_bytes(bytes: Seq<u8>) -> Option<SigningIdView> {
        match unframed(bytes) {
            None => None,
            Some(fields) => Self::from_fields(fields),
        }
    }

    /// Whether the identifier is small enough to be stored.
    pub open spec fn storable(self) -> bool {
        &&& encode_utf8(self.id).len() <= u64::MAX
        &&& encode_utf8(self.pk_hash).len() <= u64::MAX
    }

    /// A stored identifier is read back as it was.
    pub proof fn lemma_round_trip(self)
        requires
            self.storable(),
        ensures
            Self::from_bytes(self.to_bytes()) == Some(self),
    {
        let fields = self.fields();
        lemma_unframed_framed(fields);
        encode_utf8_valid_utf8(self.id);
        encode_utf8_decode_utf8(self.id);
        encode_utf8_valid_utf8(self.pk_hash);
        encode_utf8_decode_utf8(self.pk_hash);
    }
}

impl SigningId {
    /// Writes the identifier as a stored record.
    pub fn to_bytes(&self) -> (out: Vec<u8>)
        ensures
            out@ == self@.to_bytes(),
            self@.storable(),
    {
        let id = self.id.as_str().as_bytes();
        let pk_hash = self.pk_hash.as_str().as_bytes();
        let lengths = (id.len(), pk_hash.len());
        let mut fields: Vec<Vec<u8>> = Vec::new();
        fields.push(slice_to_vec(id));
        fields.push(slice_to_vec(pk_hash));
        assert(views(fields@) =~= self@.fields());
        frame(&fields)
    }

    /// Reads an identifier from a stored record, if it is one.
    pub fn from_bytes(bytes: &[u8]) -> (r: Option<SigningId>)
        ensures
            match r {
                Some(id) => SigningIdView::from_bytes(bytes@) == Some(id@),
                None => SigningIdView::from_bytes(bytes@) is None,
            },
    {
        let fields = match unframe(bytes) {
            Some(fields) => fields,
            None => { return None; },
        };
        if fields.len() != 2 {
            return None;
        }
        let id = match text_of(slice_to_vec(fields[0].as_slice())) {
            Some(text) => text,
            None => { return None; },
        };
        let pk_hash = match text_of(slice_to_vec(fields[1].as_slice())) {
            Some(text) => text,
            None => { return None; },
        };
        Some(SigningId { id, pk_hash })
    }
}

impl SigningEntryView {
    /// The fields of the stored record: the fingerprint as UTF-8, the
    /// wrapped public key, the wrapped secret key, the lifetime in eight
    /// little-endian bytes, the timestamp as UTF-8.
    pub open spec fn fields(self) -> Seq<Seq<u8>> {
        seq![
            encode_utf8(self.pk_hash),
            self.pub_key,
            self.secret_key,
            spec_u64_to_le_bytes(self.ttl as u64),
            encode_utf8(self.timestamp),
        ]
    }

    /// The stored record.
    pub open spec fn to_bytes(self) -> Seq<u8> {
        framed(self.fields())
    }

    /// The entry that a list of fields stands for, if it stands for one.
    pub open spec fn from_fields(fields: Seq<Seq<u8>>) -> Option<SigningEntryView> {
        if fields.len() == 5 && valid_utf8(fields[0]) && fields[3].len() == 8
            && spec_u64_from_le_bytes(fields[3]) <= u32::MAX && valid_utf8(fields[4]) {
            Some(
                SigningEntryView {
                    pk_hash: decode_utf8(fields[0]),
                    pub_key: fields[1],
                    secret_key: fields[2],
                    ttl: spec_u64_from_le_bytes(fields[3]) as u32,
                    timestamp: decode_utf8(fields[4]),
                },
            )
        } else {
            None
        }
    }

    /// The entry that a stored record stands for, if it stands for one.
    pub open spec fn from_bytes(bytes: Seq<u8>) -> Option<SigningEntryView> {
        match unframed(bytes) {
            None => None,
            Some(fields) => Self::from_fields(fields),
        }
    }

    /// Whether the entry is small enough to be stored.
    pub open spec fn storable(self) -> bool {
        &&& encode_utf8(self.pk_hash).len() <= u64::MAX
        &&& self.pub_key.len() <= u64::MAX
        &&& self.secret_key.len() <= u64::MAX
        &&& encode_utf8(self.timestamp).len() <= u64::MAX
    }

    /// A stored entry is read back as it was.
    pub proof fn lemma_round_trip(self)
        requires
            self.storable(),
        ensures
            Self::from_bytes(self.to_bytes()) == Some(self),
    {
        let fields = self.fields();
        lemma_auto_spec_u64_to_from_le_bytes();
        lemma_unframed_framed(fields);
        encode_utf8_valid_utf8(self.pk_hash);
        encode_utf8_decode_utf8(self.pk_hash);
        encode_utf8_valid_utf8(self.timestamp);
        encode_utf8_decode_utf8(self.timestamp);
    }
}

impl SigningEntry {
    /// Writes the entry as a stored record.
    pub fn to_bytes(&self) -> (out: Vec<u8>)
        ensures
            out@ == self@.to_bytes(),
            self@.storable(),
    {
        let pk_hash = self.pk_hash.as_str().as_bytes();
        let pub_key = self.pub_key.as_slice();
        let secret_key = self.secret_key.as_slice();
        let timestamp = self.timestamp.as_str().as_bytes();
        let lengths = (pk_hash.len(), pub_key.len(), secret_key.len(), timestamp.len());
        assert(pk_hash@.len() == lengths.0 && pub_key@.len() == lengths.1 && secret_key@.len()
            == lengths.2 && timestamp@.len() == lengths.3);
        let mut fields: Vec<Vec<u8>> = Vec::new();
        fields.push(slice_to_vec(pk_hash));
        fields.push(slice_to_vec(pub_key));
        fields.push(slice_to_vec(secret_key));
        fields.push(u64_to_le_bytes(self.ttl as u64));
        fields.push(slice_to_vec(timestamp));
        assert(views(fields@) =~= self@.fields());
        frame(&fields)
    }

    /// Reads an entry from a stored record, if it is one.
    pub fn from_bytes(bytes: &[u8]) -> (r: Option<SigningEntry>)
        ensures
            match r {
                Some(entry) => SigningEntryView::from_bytes(bytes@) == Some(entry@),
                None => SigningEntryView::from_bytes(bytes@) is None,
            },
    {
        let fields = match unframe(bytes) {
            Some(fields) => fields,
            None => { return None; },
        };
        if fields.len() != 5 {
            return None;
        }
        let pk_hash = match text_of(slice_to_vec(fields[0].as_slice())) {
            Some(text) => text,
            None => { return None; },
        };
        if fields[3].len() != 8 {
            return None;
        }
        let ttl = u64_from_le_bytes(fields[3].as_slice());
        if ttl > u32::MAX as u64 {
            return None;
        }
        let timestamp = match text_of(slice_to_vec(fields[4].as_slice())) {
            Some(text) => text,
            None => { return None; },
        };
        Some(
            SigningEntry {
                pk_hash,
                pub_key: slice_to_vec(fields[1].as_slice()),
                secret_key: slice_to_vec(fields[2].as_slice()),
                ttl: ttl as u32,
                timestamp,
            },
        )
    }
}

/// What a fetched index record, or its absence, amounts to.
pub open spec fn decoded_id(fetched: Option<Seq<u8>>) -> Result<SigningIdView, ErrorKind> {
    match fetched {
        None => Err(ErrorKind::NotFound),
        Some(bytes) => match SigningIdView::from_bytes(bytes) {
            None => Err(ErrorKind::MalformedInput),
            Some(id) => Ok(id),
        },
    }
}

/// What a fetched entry record, or its absence, amounts to.
pub open spec fn decoded_entry(fetched: Option<Seq<u8>>) -> Result<SigningEntryView, ErrorKind> {
    match fetched {
        None => Err(ErrorKind::NotFound),
        Some(bytes) => match SigningEntryView::from_bytes(bytes) {
            None => Err(ErrorKind::MalformedInput),
            Some(entry) => Ok(entry),
        },
    }
}

/// The key pair that an entry gives to the holder of `passphrase`: the
/// public key, then the secret key.
pub open spec fn key_pair(
    security: SecurityAtRest,
    entry: SigningEntryView,
    id: Seq<char>,
    passphrase: Seq<char>,
) -> Result<(Seq<u8>, Seq<u8>), ErrorKind> {
    security.unwrapped_pair(
        security.rest_key_for(id, passphrase),
        entry.pub_key,
        ED25519_PUBLIC_KEY_LEN as nat,
        entry.secret_key,
        ED25519_SECRET_KEY_LEN as nat,
    )
}

/// What signing `message` with an entry gives: the signature, then the
/// public key.
pub open spec fn signing(
    security: SecurityAtRest,
    entry: SigningEntryView,
    id: Seq<char>,
    passphrase: Seq<char>,
    message: Seq<u8>,
) -> Result<(Seq<u8>, Seq<u8>), ErrorKind> {
    match key_pair(security, entry, id, passphrase) {
        Err(kind) => Err(kind),
        Ok((public, secret)) => Ok((signature_bytes(secret, message), public)),
    }
}

/// What verifying `signature` of `message` with an entry gives.
pub open spec fn verification(
    security: SecurityAtRest,
    entry: SigningEntryView,
    id: Seq<char>,
    passphrase: Seq<char>,
    message: Seq<u8>,
    signature: Seq<u8>,
) -> Result<bool, ErrorKind> {
    match key_pair(security, entry, id, passphrase) {
        Err(kind) => Err(kind),
        Ok((public, secret)) => Ok(signature_valid(public, message, signature)),
    }
}

/// Whether an entry is what provisioning makes for `id` and `passphrase`
/// from the secret key `secret`: both halves of the pair of that key,
/// wrapped under the rest key, under the fingerprint of the public half.
pub open spec fn provisioned_from(
    security: SecurityAtRest,
    entry: SigningEntryView,
    id: Seq<char>,
    passphrase: Seq<char>,
    secret: Seq<u8>,
) -> bool {
    let rest_key = security.rest_key_for(id, passphrase);
    let public = public_key_bytes(secret);
    &&& entry.pk_hash == fingerprint_text(public)
    &&& security.wraps(rest_key, public, entry.pub_key)
    &&& security.wraps(rest_key, secret, entry.secret_key)
    &&& entry.ttl == SIG_TTL
    &&& entry.timestamp == Seq::<char>::empty()
    &&& key_pair(security, entry, id, passphrase) == Ok::<(Seq<u8>, Seq<u8>), ErrorKind>(
        (public, secret),
    )
}

/// Whether an entry is what provisioning makes for `id` and `passphrase`
/// from some secret key.
pub open spec fn provisioned(
    security: SecurityAtRest,
    entry: SigningEntryView,
    id: Seq<char>,
    passphrase: Seq<char>,
) -> bool {
    exists|secret: Seq<u8>| #[trigger] provisioned_from(security, entry, id, passphrase, secret)
}

/// Whether a message is short enough to be signed.
pub open spec fn signable(message: Seq<u8>) -> bool {
    message.len() <= MAX_INPUT_LEN
}

/// Database for signing.
#[derive(Debug)]
pub struct SigningDb {
    security: SecurityAtRest,
    db: sled::Db,
}

impl SigningDb {
    /// The place that the database of the store was opened at.
    pub closed spec fn url(&self) -> Seq<char> {
        opened_at(self.db)
    }

    /// The engine that wraps what the store holds.
    pub closed spec fn security(&self) -> SecurityAtRest {
        self.security
    }

    /// The records that the store holds, by key.
    pub closed spec fn records(&self) -> Map<Seq<u8>, Seq<u8>> {
        stored_records(self.db)
    }

    /// The key of the index record of an identifier.
    pub open spec fn index_key(id: Seq<char>) -> Seq<u8> {
        collection_key(SIG_ID_COLLECTION@, id)
    }

    /// The key of the entry record of a fingerprint.
    pub open spec fn entry_key(pk_hash: Seq<char>) -> Seq<u8> {
        collection_key(SIG_COLLECTION@, pk_hash)
    }

    /// The record stored under a key, if there is one.
    pub open spec fn record_at(&self, key: Seq<u8>) -> Option<Seq<u8>> {
        if self.records().contains_key(key) {
            Some(self.records()[key])
        } else {
            None
        }
    }

    /// The index record stored for an identifier.
    pub open spec fn stored_id(&self, id: Seq<char>) -> Result<SigningIdView, ErrorKind> {
        decoded_id(self.record_at(Self::index_key(id)))
    }

    /// The entry stored for an identifier: the entry under the fingerprint
    /// that the index gives for the identifier.
    pub open spec fn stored_entry(&self, id: Seq<char>) -> Result<SigningEntryView, ErrorKind> {
        match self.stored_id(id) {
            Err(kind) => Err(kind),
            Ok(found) => decoded_entry(self.record_at(Self::entry_key(found.pk_hash))),
        }
    }

    /// What signing `message` gives to the holder of `passphrase` where the
    /// identity is in the store already: the signature, then the public
    /// key.
    pub open spec fn signature(&self, id: Seq<char>, passphrase: Seq<char>, message: Seq<u8>) -> Result<
        (Seq<u8>, Seq<u8>),
        ErrorKind,
    > {
        if !derivable(id, passphrase) || !signable(message) {
            Err(ErrorKind::MalformedInput)
        } else {
            match self.stored_entry(id) {
                Err(kind) => Err(kind),
                Ok(entry) => signing(self.security(), entry, id, passphrase, message),
            }
        }
    }

    /// What verifying `signature` of `message` gives to the holder of
    /// `passphrase`, the storage permitting.
    pub open spec fn verdict(
        &self,
        id: Seq<char>,
        passphrase: Seq<char>,
        message: Seq<u8>,
        signature: Seq<u8>,
    ) -> Result<bool, ErrorKind> {
        if !derivable(id, passphrase) || !signable(message) {
            Err(ErrorKind::MalformedInput)
        } else {
            match self.stored_entry(id) {
                Err(kind) => Err(kind),
                Ok(entry) => verification(self.security(), entry, id, passphrase, message, signature),
            }
        }
    }

    /// The records of a store after the record of `entry` was put in, and
    /// no index record.
    pub open spec fn records_with_entry(&self, entry: SigningEntryView) -> Map<Seq<u8>, Seq<u8>> {
        self.records().insert(Self::entry_key(entry.pk_hash), entry.to_bytes())
    }

    /// The records of a store after `entry` was put in for `id`.
    pub open spec fn records_with(&self, id: Seq<char>, entry: SigningEntryView) -> Map<
        Seq<u8>,
        Seq<u8>,
    > {
        self.records_with_entry(entry).insert(
            Self::index_key(id),
            SigningIdView { id, pk_hash: entry.pk_hash }.to_bytes(),
        )
    }

    /// What a successful signing leaves and gives: the store `self`, made
    /// from `before`, holds an entry for the identifier; the signature and
    /// the public key are those of that entry; the signature is valid
    /// under the public key that belongs to the entry's secret key. An
    /// identity that was there is left as it was. One that was not is
    /// provisioned.
    pub open spec fn signs(
        &self,
        before: SigningDb,
        id: Seq<char>,
        passphrase: Seq<char>,
        message: Seq<u8>,
        signature: Seq<u8>,
        public_key: Seq<u8>,
    ) -> bool {
        &&& derivable(id, passphrase)
        &&& signable(message)
        &&& self.stored_entry(id) matches Ok(entry) && {
            &&& key_pair(self.security(), entry, id, passphrase) matches Ok((public, secret)) && {
                &&& public_key == public
                &&& signature == signature_bytes(secret, message)
                &&& signature_valid(public_key_bytes(secret), message, signature)
            }
            &&& if before.stored_entry(id) is Ok {
                self.records() == before.records()
            } else {
                &&& before.stored_entry(id) == Err::<SigningEntryView, ErrorKind>(ErrorKind::NotFound)
                &&& provisioned(self.security(), entry, id, passphrase)
                &&& self.records() == before.records_with(id, entry)
            }
        }
    }

    /// Whether the store `self` is what an attempt to insert `entry` for
    /// `id` leaves of `before`, whether it fails or not: the records are
    /// those of `before`, or those with the entry, or those with the entry
    /// and the index record; and so the index of `id` is as it was, or it
    /// leads to the entry.
    pub open spec fn holds_or_held(&self, before: SigningDb, id: Seq<char>, entry: SigningEntryView) -> bool {
        &&& {
            ||| self.records() == before.records()
            ||| self.records() == before.records_with_entry(entry)
            ||| self.records() == before.records_with(id, entry)
        }
        &&& {
            ||| self.stored_id(id) == before.stored_id(id)
            ||| self.stored_entry(id) == Ok::<SigningEntryView, ErrorKind>(entry)
        }
    }

    /// Whether signing `message` for an identifier is its first use: the
    /// inputs are such as can be signed for, and the store holds no entry
    /// for the identifier.
    pub open spec fn first_use(&self, id: Seq<char>, passphrase: Seq<char>, message: Seq<u8>) -> bool {
        &&& derivable(id, passphrase)
        &&& signable(message)
        &&& self.stored_entry(id) == Err::<SigningEntryView, ErrorKind>(ErrorKind::NotFound)
    }

    /// Whether the store `self` is `before` with the identity `entry`
    /// provisioned for `id`, in whole or up to its index record: its
    /// records are those of `before` with the entry, and with or without
    /// the index record of `id`.
    pub open spec fn provisions(
        &self,
        before: SigningDb,
        id: Seq<char>,
        passphrase: Seq<char>,
        entry: SigningEntryView,
    ) -> bool {
        &&& provisioned(self.security(), entry, id, passphrase)
        &&& self.records() == before.records_with_entry(entry) || self.records()
            == before.records_with(id, entry)
    }

    /// What a call of `sign` with outcome `r` makes of the store `before`.
    ///
    /// The store is written only on the first use of an identifier, and
    /// then with one entry that provisioning made, and its index record
    /// after it: whatever the outcome, the index of the identifier is as
    /// it was, or it leads to such an entry.
    ///
    /// A failure is one of the storage, which comes only where the inputs
    /// are such as can be signed for; or it leaves the store as it was and
    /// is the failure of `before.signature(..)`. The first use of an
    /// identifier fails only with the storage.
    pub open spec fn signed(
        &self,
        before: SigningDb,
        id: Seq<char>,
        passphrase: Seq<char>,
        message: Seq<u8>,
        r: Result<(Signature, PublicKey), DbError>,
    ) -> bool {
        &&& self.url() == before.url()
        &&& self.security() == before.security()
        &&& self.records() == before.records() || {
            &&& before.first_use(id, passphrase, message)
            &&& exists|entry: SigningEntryView| #[trigger] self.provisions(before, id, passphrase, entry)
        }
        &&& self.stored_id(id) == before.stored_id(id) || (self.stored_entry(id) matches Ok(entry)
            && provisioned(self.security(), entry, id, passphrase))
        &&& match r {
            Ok((signature, public_key)) => self.signs(
                before,
                id,
                passphrase,
                message,
                signature@,
                public_key@,
            ),
            Err(e) => {
                ||| derivable(id, passphrase) && signable(message) && e.is_kind(
                    ErrorKind::StoreUnavailable,
                )
                ||| {
                    &&& self.records() == before.records()
                    &&& e.reports(before.signature(id, passphrase, message))
                    &&& !before.first_use(id, passphrase, message)
                }
            },
        }
    }

    /// The key of an index record is the key of no entry record.
    pub proof fn lemma_keys_apart(id: Seq<char>, pk_hash: Seq<char>)
        ensures
            Self::index_key(id) != Self::entry_key(pk_hash),
    {
        reveal_strlit("sig_ids");
        reveal_strlit("signatures");
        is_ascii_chars_encode_utf8(SIG_ID_COLLECTION@);
        is_ascii_chars_encode_utf8(SIG_COLLECTION@);
        assert(Self::entry_key(pk_hash)[3] == encode_utf8(SIG_COLLECTION@)[3]);
    }

    /// The record of an entry alone changes the index of no identifier.
    pub proof fn lemma_entry_keeps_index(&self, before: SigningDb, id: Seq<char>, entry: SigningEntryView)
        requires
            self.records() == before.records_with_entry(entry),
        ensures
            self.stored_id(id) == before.stored_id(id),
    {
        Self::lemma_keys_apart(id, entry.pk_hash);
    }

    /// After `entry` was put in for `id`, it is the entry stored for `id`.
    pub proof fn lemma_stored_after_insert(&self, before: SigningDb, id: Seq<char>, entry: SigningEntryView)
        requires
            entry.storable(),
            encode_utf8(id).len() <= u64::MAX,
            self.records() == before.records_with(id, entry),
        ensures
            self.stored_entry(id) == Ok::<SigningEntryView, ErrorKind>(entry),
    {
        let found = SigningIdView { id, pk_hash: entry.pk_hash };
        found.lemma_round_trip();
        entry.lemma_round_trip();
        Self::lemma_keys_apart(id, entry.pk_hash);
    }

    /// Putting an entry in for one identifier leaves the index of every
    /// other identifier, and the entry under every other fingerprint, as
    /// they were.
    pub proof fn lemma_insert_keeps_others(
        &self,
        before: SigningDb,
        id: Seq<char>,
        entry: SigningEntryView,
        other: Seq<char>,
        other_hash: Seq<char>,
    )
        requires
            self.records() == before.records_with(id, entry),
        ensures
            other != id ==> self.stored_id(other) == before.stored_id(other),
            other_hash != entry.pk_hash ==> self.record_at(Self::entry_key(other_hash))
                == before.record_at(Self::entry_key(other_hash)),
            before.stored_id(other) matches Ok(found) ==> other != id && found.pk_hash
                != entry.pk_hash ==> self.stored_entry(other) == before.stored_entry(other),
    {
        Self::lemma_keys_apart(other, entry.pk_hash);
        Self::lemma_keys_apart(id, other_hash);
        if other != id {
            lemma_keys_differ(SIG_ID_COLLECTION@, other, id);
        }
        if other_hash != entry.pk_hash {
            lemma_keys_differ(SIG_COLLECTION@, other_hash, entry.pk_hash);
        }
        if other != id {
            if let Ok(found) = before.stored_id(other) {
                if found.pk_hash != entry.pk_hash {
                    Self::lemma_keys_apart(id, found.pk_hash);
                    lemma_keys_differ(SIG_COLLECTION@, found.pk_hash, entry.pk_hash);
                }
            }
        }
    }

    /// Whether the entry that the store holds for an identifier, if it
    /// holds one, is what provisioning makes for it.
    pub open spec fn sound_for(&self, id: Seq<char>, passphrase: Seq<char>) -> bool {
        self.stored_entry(id) matches Ok(entry) ==> provisioned(self.security(), entry, id, passphrase)
    }

    /// A signature that `sign` gave verifies: where the store held no
    /// entry for the identifier, or one that provisioning made, a
    /// successful `sign` leaves a store in which `verify`, for the same
    /// identifier, passphrase and message and the signature given, finds
    /// the signature valid; and the entry that it leaves is one that
    /// provisioning made.
    pub proof fn lemma_signature_verifies(
        &self,
        before: SigningDb,
        id: Seq<char>,
        passphrase: Seq<char>,
        message: Seq<u8>,
        signature: Signature,
        public_key: PublicKey,
    )
        requires
            before.sound_for(id, passphrase),
            self.signed(before, id, passphrase, message, Ok((signature, public_key))),
        ensures
            self.verdict(id, passphrase, message, signature@) == Ok::<bool, ErrorKind>(true),
            self.stored_entry(id) is Ok,
            self.sound_for(id, passphrase),
    {
    }

    /// A signature that is not valid is an answer, not a failure: where the
    /// store holds for the identifier an entry whose key pair unwraps for
    /// the holder of `passphrase`, `verify` gives what the verifier says of
    /// the signature under the public key of that pair, `false` for a
    /// signature that is not valid for the message.
    pub proof fn lemma_verdict_is_the_verifiers(
        &self,
        id: Seq<char>,
        passphrase: Seq<char>,
        message: Seq<u8>,
        signature: Seq<u8>,
        entry: SigningEntryView,
        public: Seq<u8>,
        secret: Seq<u8>,
    )
        requires
            derivable(id, passphrase),
            signable(message),
            self.stored_entry(id) == Ok::<SigningEntryView, ErrorKind>(entry),
            key_pair(self.security(), entry, id, passphrase) == Ok::<(Seq<u8>, Seq<u8>), ErrorKind>(
                (public, secret),
            ),
        ensures
            self.verdict(id, passphrase, message, signature) == Ok::<bool, ErrorKind>(
                signature_valid(public, message, signature),
            ),
    {
    }

    /// Signing twice for one identity uses one key pair: two successful
    /// calls of `sign` in a row, for the same identifier and passphrase,
    /// give the same public key, and the second leaves the store as the
    /// first left it.
    pub proof fn lemma_sign_again_same_key(
        &self,
        first: SigningDb,
        before: SigningDb,
        id: Seq<char>,
        passphrase: Seq<char>,
        message_1: Seq<u8>,
        signed_1: (Signature, PublicKey),
        message_2: Seq<u8>,
        signed_2: (Signature, PublicKey),
    )
        requires
            first.signed(before, id, passphrase, message_1, Ok(signed_1)),
            self.signed(first, id, passphrase, message_2, Ok(signed_2)),
        ensures
            signed_1.1@ == signed_2.1@,
            self.records() == first.records(),
    {
    }

    /// Opens the signing database at `url`, with a new security instance:
    /// a fresh nonce, the default iteration count and the default salt
    /// base. Fails, with `StoreUnavailable`, where the storage cannot be
    /// opened.
    pub fn new(url: String) -> (r: Result<SigningDb, DbError>)
        ensures
            r matches Ok(db) ==> {
                &&& db.url() == url@
                &&& db.security().iterations() == PBKDF2_ITERATIONS
                &&& db.security().salt_base() == SALT_BASE@
            },
            r matches Err(e) ==> e.is_kind(ErrorKind::StoreUnavailable),
    {
        Self::with_security(url, SecurityAtRest::new())
    }

    /// What an attempt to open the storage amounts to: the store over the
    /// database that was opened, which the store takes for its own, with
    /// the given security instance; or `StoreUnavailable` where none was
    /// opened.
    pub fn from_opened(security: SecurityAtRest, opened: Result<sled::Db, sled::Error>) -> (r: Result<
        SigningDb,
        DbError,
    >)
        ensures
            match opened {
                Ok(db) => r matches Ok(store) && {
                    &&& store.url() == opened_at(db)
                    &&& store.security() == security
                    &&& store.records() == stored_records(db)
                },
                Err(_) => r matches Err(e) && e.is_kind(ErrorKind::StoreUnavailable),
            },
    {
        match opened {
            Ok(db) => Ok(SigningDb { security, db }),
            Err(_) => Err(DbError::new(ErrorKind::StoreUnavailable)),
        }
    }

    /// Opens the signing database at `url`, with the given security
    /// instance. Fails, with `StoreUnavailable`, where the storage cannot
    /// be opened.
    pub fn with_security(url: String, security: SecurityAtRest) -> (r: Result<SigningDb, DbError>)
        ensures
            r matches Ok(db) ==> db.url() == url@ && db.security() == security,
            r matches Err(e) ==> e.is_kind(ErrorKind::StoreUnavailable),
    {
        Self::from_opened(security, open_db(url.as_str()))
    }

    /// What a fetched index record, or its absence, amounts to.
    pub fn decode_id(fetched: Option<Vec<u8>>) -> (r: Result<SigningId, DbError>)
        ensures
            match r {
                Ok(id) => decoded_id(fetched_bytes(fetched)) == Ok::<SigningIdView, ErrorKind>(id@),
                Err(e) => e.reports(decoded_id(fetched_bytes(fetched))),
            },
    {
        match fetched {
            None => Err(DbError::new(ErrorKind::NotFound)),
            Some(record) => match SigningId::from_bytes(record.as_slice()) {
                Some(id) => Ok(id),
                None => Err(DbError::new(ErrorKind::MalformedInput)),
            },
        }
    }

    /// What a fetched entry record, or its absence, amounts to.
    pub fn decode_entry(fetched: Option<Vec<u8>>) -> (r: Result<SigningEntry, DbError>)
        ensures
            match r {
                Ok(entry) => decoded_entry(fetched_bytes(fetched)) == Ok::<SigningEntryView, ErrorKind>(
                    entry@,
                ),
                Err(e) => e.reports(decoded_entry(fetched_bytes(fetched))),
            },
    {
        match fetched {
            None => Err(DbError::new(ErrorKind::NotFound)),
            Some(record) => match SigningEntry::from_bytes(record.as_slice()) {
                Some(entry) => Ok(entry),
                None => Err(DbError::new(ErrorKind::MalformedInput)),
            },
        }
    }

    /// Inserts signature data into the database: first the entry, under
    /// its fingerprint, then the index record from `message_id` to that
    /// fingerprint. Fails, with `StoreUnavailable`, where the storage
    /// cannot be written. After a failure the store holds what it held,
    /// or that with the entry, or that with the entry and the index
    /// record: never an index record without the entry, so that the index
    /// of `message_id` is as it was or leads to the entry.
    pub fn insert(&mut self, message_id: String, signing_data: SigningEntry) -> (r: Result<(), DbError>)
        ensures
            final(self).url() == old(self).url(),
            final(self).security() == old(self).security(),
            r is Ok ==> final(self).records() == old(self).records_with(message_id@, signing_data@),
            r is Ok ==> final(self).stored_entry(message_id@) == Ok::<SigningEntryView, ErrorKind>(
                signing_data@,
            ),
            r matches Err(e) ==> e.is_kind(ErrorKind::StoreUnavailable),
            final(self).holds_or_held(*old(self), message_id@, signing_data@),
    {
        let entry_record = signing_data.to_bytes();
        let entry_key = key_in(SIG_COLLECTION, signing_data.pk_hash.as_str());
        let entry_put = put_record(&mut self.db, entry_key.as_slice(), entry_record);
        proof {
            if self.records() == old(self).records_with_entry(signing_data@) {
                self.lemma_entry_keeps_index(*old(self), message_id@, signing_data@);
            }
        }
        match entry_put {
            Ok(()) => {},
            Err(_) => { return Err(DbError::new(ErrorKind::StoreUnavailable)); },
        }
        let index = SigningId { id: message_id, pk_hash: signing_data.pk_hash };
        let index_record = index.to_bytes();
        let index_key = key_in(SIG_ID_COLLECTION, index.id.as_str());
        let index_put = put_record(&mut self.db, index_key.as_slice(), index_record);
        proof {
            if self.records() == old(self).records_with(message_id@, signing_data@) {
                self.lemma_stored_after_insert(*old(self), message_id@, signing_data@);
            }
        }
        match index_put {
            Ok(()) => Ok(()),
            Err(_) => Err(DbError::new(ErrorKind::StoreUnavailable)),
        }
    }

    /// Gets signature data from the database. Apart from a failure of the
    /// storage, reported as `StoreUnavailable`, the outcome is
    /// `self.stored_entry(message_id)`.
    pub fn get(&self, message_id: String) -> (r: Result<SigningEntry, DbError>)
        ensures
            match r {
                Ok(entry) => self.stored_entry(message_id@) == Ok::<SigningEntryView, ErrorKind>(entry@),
                Err(e) => e.is_kind(ErrorKind::StoreUnavailable) || e.reports(
                    self.stored_entry(message_id@),
                ),
            },
    {
        let index_key = key_in(SIG_ID_COLLECTION, message_id.as_str());
        let fetched = match get_record(&self.db, index_key.as_slice()) {
            Ok(fetched) => fetched,
            Err(_) => { return Err(DbError::new(ErrorKind::StoreUnavailable)); },
        };
        let index = Self::decode_id(fetched)?;
        let entry_key = key_in(SIG_COLLECTION, index.pk_hash.as_str());
        let fetched = match get_record(&self.db, entry_key.as_slice()) {
            Ok(fetched) => fetched,
            Err(_) => { return Err(DbError::new(ErrorKind::StoreUnavailable)); },
        };
        Self::decode_entry(fetched)
    }

    /// Creates the signing entry of a given secret key: the pair of that
    /// key, each half wrapped under the rest key of `id` and `passphrase`.
    pub fn create_from(&self, id: &str, passphrase: &str, secret_key: SecretKey) -> (entry: SigningEntry)
        requires
            derivable(id@, passphrase@),
        ensures
            provisioned_from(self.security(), entry@, id@, passphrase@, secret_key@),
            entry.pub_key@.len() == ED25519_PUBLIC_KEY_LEN + TAG_LEN,
            entry.secret_key@.len() == ED25519_SECRET_KEY_LEN + TAG_LEN,
    {
        let public_key = public_key_of(&secret_key);
        let pk_hash = fingerprint(public_key.as_ref());
        let rest_key = self.security.derive_rest_key(id, passphrase);
        let (pub_key, secret_key) = self.security.encrypt_keys_for_storage(
            rest_key,
            (public_key, secret_key),
        );
        SigningEntry { pk_hash, pub_key, secret_key, ttl: SIG_TTL, timestamp: String::new() }
    }

    /// Creates a signing entry with a fresh key pair.
    pub fn create(&self, id: &str, passphrase: &str) -> (entry: SigningEntry)
        requires
            derivable(id@, passphrase@),
        ensures
            provisioned(self.security(), entry@, id@, passphrase@),
            entry.pub_key@.len() == ED25519_PUBLIC_KEY_LEN + TAG_LEN,
            entry.secret_key@.len() == ED25519_SECRET_KEY_LEN + TAG_LEN,
            entry.ttl == SIG_TTL,
    {
        self.create_from(id, passphrase, SecretKey(generate_key()))
    }

    /// Signs a message with the key pair of an entry.
    pub fn sign_with(
        security: &SecurityAtRest,
        entry: SigningEntry,
        id: &str,
        passphrase: &str,
        message: &[u8],
    ) -> (r: Result<(Signature, PublicKey), DbError>)
        requires
            derivable(id@, passphrase@),
            signable(message@),
        ensures
            match r {
                Ok((signature, public_key)) => {
                    &&& signing(*security, entry@, id@, passphrase@, message@) == Ok::<
                        (Seq<u8>, Seq<u8>),
                        ErrorKind,
                    >((signature@, public_key@))
                    &&& key_pair(*security, entry@, id@, passphrase@) matches Ok((public, secret))
                        && signature_valid(public_key_bytes(secret), message@, signature@)
                },
                Err(e) => e.reports(signing(*security, entry@, id@, passphrase@, message@)),
            },
    {
        let rest_key = security.derive_rest_key(id, passphrase);
        let (public_key, secret_key) = security.decrypt_keys_from_storage(
            rest_key,
            (entry.pub_key, entry.secret_key),
        )?;
        let signature = sign_detached(message, &secret_key);
        Ok((signature, public_key))
    }

    /// Verifies a signature of a message with the key pair of an entry.
    pub fn verify_with(
        security: &SecurityAtRest,
        entry: SigningEntry,
        id: &str,
        passphrase: &str,
        message: &[u8],
        signature: &Signature,
    ) -> (r: Result<bool, DbError>)
        requires
            derivable(id@, passphrase@),
            signable(message@),
        ensures
            match r {
                Ok(valid) => verification(*security, entry@, id@, passphrase@, message@, signature@)
                    == Ok::<bool, ErrorKind>(valid),
                Err(e) => e.reports(
                    verification(*security, entry@, id@, passphrase@, message@, signature@),
                ),
            },
    {
        let rest_key = security.derive_rest_key(id, passphrase);
        let (public_key, _) = security.decrypt_keys_from_storage(
            rest_key,
            (entry.pub_key, entry.secret_key),
        )?;
        Ok(verify_detached(signature, message, &public_key))
    }

    /// Signs a message for an identity. An identity that the store does
    /// not hold is provisioned first: an entry with a fresh key pair is
    /// created and inserted, and read again. An identity that the store
    /// holds is left as it is, whatever the outcome. Inputs that cannot be
    /// signed for are a `MalformedInput`, and the storage is not asked.
    pub fn sign(&mut self, id: &str, passphrase: &str, message: Vec<u8>) -> (r: Result<
        (Signature, PublicKey),
        DbError,
    >)
        ensures
            final(self).signed(*old(self), id@, passphrase@, message@, r),
            old(self).stored_entry(id@) is Ok ==> final(self).records() == old(self).records(),
            !derivable(id@, passphrase@) || !signable(message@) ==> fails_with(
                r,
                ErrorKind::MalformedInput,
            ) && final(self).records() == old(self).records(),
    {
        if !can_derive(id, passphrase) || message.len() as u64 > MAX_INPUT_LEN {
            return Err(DbError::new(ErrorKind::MalformedInput));
        }
        let entry = match self.get(id.to_owned()) {
            Ok(entry) => entry,
            Err(e) => {
                match e.kind {
                    ErrorKind::NotFound => {},
                    _ => { return Err(e); },
                }
                let fresh = self.create(id, passphrase);
                let ghost made = fresh@;
                let inserted = self.insert(id.to_owned(), fresh);
                proof {
                    if self.records() != old(self).records() {
                        assert(self.provisions(*old(self), id@, passphrase@, made));
                    }
                }
                match inserted {
                    Ok(()) => {},
                    Err(e) => { return Err(e); },
                }
                match self.get(id.to_owned()) {
                    Ok(entry) => entry,
                    Err(e) => { return Err(e); },
                }
            },
        };
        Self::sign_with(&self.security, entry, id, passphrase, message.as_slice())
    }

    /// Verifies a message with the signature, for an identity that the
    /// store holds. Apart from a failure of the storage, reported as
    /// `StoreUnavailable`, the outcome is `self.verdict(..)`. Inputs that
    /// cannot be signed for are a `MalformedInput`, and the storage is not
    /// asked.
    pub fn verify(&self, id: &str, passphrase: &str, message: Vec<u8>, signature: Signature) -> (r:
        Result<bool, DbError>)
        ensures
            match r {
                Ok(valid) => self.verdict(id@, passphrase@, message@, signature@) == Ok::<
                    bool,
                    ErrorKind,
                >(valid),
                Err(e) => (derivable(id@, passphrase@) && signable(message@) && e.is_kind(
                    ErrorKind::StoreUnavailable,
                )) || e.reports(self.verdict(id@, passphrase@, message@, signature@)),
            },
            !derivable(id@, passphrase@) || !signable(message@) ==> fails_with(
                r,
                ErrorKind::MalformedInput,
            ),
    {
        if !can_derive(id, passphrase) || message.len() as u64 > MAX_INPUT_LEN {
            return Err(DbError::new(ErrorKind::MalformedInput));
        }
        let entry = self.get(id.to_owned())?;
        Self::verify_with(&self.security, entry, id, passphrase, message.as_slice(), &signature)
    }
}

} // verus!
