//! The content-key store: for each file, the key and nonce that its
//! content is encrypted with, wrapped under a rest key.

use super::record::{
    frame, frameable, framed, lemma_unframed_framed, text_of, unframe, unframed, views,
};
use super::security::{can_derive, derivable, SecurityAtRest};
use super::constants::{PBKDF2_ITERATIONS, SALT_BASE, SECRET_COLLECTION};
use super::storage::{
    collection_key, fetched_bytes, get_record, key_in, lemma_keys_differ, open_db, opened_at,
    put_record, stored_records,
};
use super::{fails_with, DbError, ErrorKind};
use crate::crypto::secretbox_chacha20_poly1305::{Key, Nonce, KEY_LEN, NONCE_LEN, TAG_LEN};
use vstd::bytes::{
    lemma_auto_spec_u64_to_from_le_bytes, spec_u64_from_le_bytes, spec_u64_to_le_bytes,
    u64_from_le_bytes, u64_to_le_bytes,
};
use vstd::prelude::*;
use vstd::slice::slice_to_vec;
use vstd::utf8::{
    decode_utf8, encode_utf8, encode_utf8_decode_utf8, encode_utf8_valid_utf8, valid_utf8,
};

verus! {

/// Full data for handling a secret key entry: the key and the nonce are
/// wrapped.
#[derive(Debug, Clone)]
pub struct SecretEntry {
    pub file_name: String,
    pub total_chunks: usize,
    pub key: Vec<u8>,
    pub nonce: Vec<u8>,
}

/// What a secret entry holds.
pub struct SecretEntryView {
    pub file_name: Seq<char>,
    pub total_chunks: usize,
    pub key: Seq<u8>,
    pub nonce: Seq<u8>,
}

impl View for SecretEntry {
    type V = SecretEntryView;

    open spec fn view(&self) -> SecretEntryView {
        SecretEntryView {
            file_name: self.file_name@,
            total_chunks: self.total_chunks,
            key: self.key@,
            nonce: self.nonce@,
        }
    }
}

/// Secret key entry with key and nonce unwrapped.
#[derive(Debug, Clone)]
pub struct SecretEntryWithKeyAndNonce {
    pub file_name: String,
    pub total_chunks: usize,
    pub key: Key,
    pub nonce: Nonce,
}

/// What an unwrapped secret entry holds.
pub struct SecretEntryWithKeyAndNonceView {
    pub file_name: Seq<char>,
    pub total_chunks: usize,
    pub key: Seq<u8>,
    pub nonce: Seq<u8>,
}

impl View for SecretEntryWithKeyAndNonce {
    type V = SecretEntryWithKeyAndNonceView;

    open spec fn view(&self) -> SecretEntryWithKeyAndNonceView {
        SecretEntryWithKeyAndNonceView {
            file_name: self.file_name@,
            total_chunks: self.total_chunks,
            key: self.key@,
            nonce: self.nonce@,
        }
    }
}

impl SecretEntryView {
    /// The fields of the stored record: the file name as UTF-8, the chunk
    /// count in eight little-endian bytes, the wrapped key, the wrapped
    /// nonce.
    pub open spec fn fields(self) -> Seq<Seq<u8>> {
        seq![
            encode_utf8(self.file_name),
            spec_u64_to_le_bytes(self.total_chunks as u64),
            self.key,
            self.nonce,
        ]
    }

    /// The stored record.
    pub open spec fn to_bytes(self) -> Seq<u8> {
        framed(self.fields())
    }

    /// The entry that a list of fields stands for, if it stands for one.
    pub open spec fn from_fields(fields: Seq<Seq<u8>>) -> Option<SecretEntryView> {
        if fields.len() == 4 && valid_utf8(fields[0]) && fields[1].len() == 8
            && spec_u64_from_le_bytes(fields[1]) <= usize::MAX {
            Some(
                SecretEntryView {
                    file_name: decode_utf8(fields[0]),
                    total_chunks: spec_u64_from_le_bytes(fields[1]) as usize,
                    key: fields[2],
                    nonce: fields[3],
                },
            )
        } else {
            None
        }
    }

    /// The entry that a stored record stands for, if it stands for one.
    pub open spec fn from_bytes(bytes: Seq<u8>) -> Option<SecretEntryView> {
        match unframed(bytes) {
            None => None,
            Some(fields) => Self::from_fields(fields),
        }
    }

    /// Whether the entry is small enough to be stored.
    pub open spec fn storable(self) -> bool {
        &&& encode_utf8(self.file_name).len() <= u64::MAX
        &&& self.key.len() <= u64::MAX
        &&& self.nonce.len() <= u64::MAX
    }

    /// A stored entry is read back as it was.
    pub proof fn lemma_round_trip(self)
        requires
            self.storable(),
        ensures
            Self::from_bytes(self.to_bytes()) == Some(self),
    {
        let fields = self.fields();
        lemma_auto_spec_u64_to_from_le_bytes();
        lemma_unframed_framed(fields);
        encode_utf8_valid_utf8(self.file_name);
        encode_utf8_decode_utf8(self.file_name);
    }
}

impl SecretEntry {
    /// Writes the entry as a stored record.
    pub fn to_bytes(&self) -> (out: Vec<u8>)
        ensures
            out@ == self@.to_bytes(),
            self@.storable(),
    {
        let file_name = self.file_name.as_str().as_bytes();
        let key = self.key.as_slice();
        let nonce = self.nonce.as_slice();
        let lengths = (file_name.len(), key.len(), nonce.len());
        assert(file_name@.len() == lengths.0 && key@.len() == lengths.1 && nonce@.len()
            == lengths.2);
        let mut fields: Vec<Vec<u8>> = Vec::new();
        fields.push(slice_to_vec(file_name));
        fields.push(u64_to_le_bytes(self.total_chunks as u64));
        fields.push(slice_to_vec(key));
        fields.push(slice_to_vec(nonce));
        assert(views(fields@) =~= self@.fields());
        frame(&fields)
    }

    /// Reads an entry from a stored record, if it is one.
    pub fn from_bytes(bytes: &[u8]) -> (r: Option<SecretEntry>)
        ensures
            match r {
                Some(entry) => SecretEntryView::from_bytes(bytes@) == Some(entry@),
                None => SecretEntryView::from_bytes(bytes@) is None,
            },
    {
        let fields = match unframe(bytes) {
            Some(fields) => fields,
            None => { return None; },
        };
        if fields.len() != 4 {
            return None;
        }
        let file_name = match text_of(slice_to_vec(fields[0].as_slice())) {
            Some(text) => text,
            None => { return None; },
        };
        if fields[1].len() != 8 {
            return None;
        }
        let total = u64_from_le_bytes(fields[1].as_slice());
        if total > usize::MAX as u64 {
            return None;
        }
        Some(
            SecretEntry {
                file_name,
                total_chunks: total as usize,
                key: slice_to_vec(fields[2].as_slice()),
                nonce: slice_to_vec(fields[3].as_slice()),
            },
        )
    }
}

/// What a fetched record, or its absence, amounts to: the entry, or
/// `NotFound` where nothing was fetched and `MalformedInput` where what
/// was fetched is no record.
pub open spec fn decoded(fetched: Option<Seq<u8>>) -> Result<SecretEntryView, ErrorKind> {
    match fetched {
        None => Err(ErrorKind::NotFound),
        Some(bytes) => match SecretEntryView::from_bytes(bytes) {
            None => Err(ErrorKind::MalformedInput),
            Some(entry) => Ok(entry),
        },
    }
}

/// What unwrapping an entry under the rest key of `id` and `passphrase`
/// gives.
pub open spec fn unsealed(
    security: SecurityAtRest,
    entry: SecretEntryView,
    id: Seq<char>,
    passphrase: Seq<char>,
) -> Result<SecretEntryWithKeyAndNonceView, ErrorKind> {
    match security.unwrapped_pair(
        security.rest_key_for(id, passphrase),
        entry.key,
        KEY_LEN as nat,
        entry.nonce,
        NONCE_LEN as nat,
    ) {
        Err(kind) => Err(kind),
        Ok((key, nonce)) => Ok(
            SecretEntryWithKeyAndNonceView {
                file_name: entry.file_name,
                total_chunks: entry.total_chunks,
                key,
                nonce,
            },
        ),
    }
}

/// What a fetched record, or its absence, gives to the holder of
/// `passphrase`.
pub open spec fn resolved(
    security: SecurityAtRest,
    id: Seq<char>,
    passphrase: Seq<char>,
    fetched: Option<Seq<u8>>,
) -> Result<SecretEntryWithKeyAndNonceView, ErrorKind> {
    match decoded(fetched) {
        Err(kind) => Err(kind),
        Ok(entry) => unsealed(security, entry, id, passphrase),
    }
}

/// Secret key database.
#[derive(Debug)]
pub struct SecretDb {
    security: SecurityAtRest,
    db: sled::Db,
}

impl SecretDb {
    /// The place that the database of the store was opened at.
    pub closed spec fn url(&self) -> Seq<char> {
        opened_at(self.db)
    }

    /// The engine that wraps what the store holds.
    pub closed spec fn security(&self) -> SecurityAtRest {
        self.security
    }

    /// The records that the store holds, by key.
    pub closed spec fn records(&self) -> Map<Seq<u8>, Seq<u8>> {
        stored_records(self.db)
    }

    /// The key under which the record of a file is stored.
    pub open spec fn record_key(id: Seq<char>) -> Seq<u8> {
        collection_key(SECRET_COLLECTION@, id)
    }

    /// The record stored for a file, if there is one.
    pub open spec fn fetched(&self, id: Seq<char>) -> Option<Seq<u8>> {
        if self.records().contains_key(Self::record_key(id)) {
            Some(self.records()[Self::record_key(id)])
        } else {
            None
        }
    }

    /// The entry stored for a file.
    pub open spec fn stored_entry(&self, id: Seq<char>) -> Result<SecretEntryView, ErrorKind> {
        decoded(self.fetched(id))
    }

    /// What the store gives for a file to the holder of `passphrase`, the
    /// storage permitting.
    pub open spec fn secret(&self, id: Seq<char>, passphrase: Seq<char>) -> Result<
        SecretEntryWithKeyAndNonceView,
        ErrorKind,
    > {
        if !derivable(id, passphrase) {
            Err(ErrorKind::MalformedInput)
        } else {
            resolved(self.security(), id, passphrase, self.fetched(id))
        }
    }

    /// Whether the store `self` is `before`, with or without `entry` put
    /// in under its file name: what an attempt to insert the entry leaves,
    /// whether it fails or not.
    pub open spec fn holds_or_held(&self, before: SecretDb, entry: SecretEntryView) -> bool {
        ||| self.records() == before.records()
        ||| {
            &&& self.records() == before.records().insert(
                Self::record_key(entry.file_name),
                entry.to_bytes(),
            )
            &&& self.stored_entry(entry.file_name) == Ok::<SecretEntryView, ErrorKind>(entry)
        }
    }

    /// Inserting for one file leaves every other file as it was: where
    /// the records of `self` are those of `before` with a record put in for
    /// `id`, the store gives for any other file what it gave before.
    pub proof fn lemma_insert_keeps_others(
        &self,
        before: SecretDb,
        id: Seq<char>,
        record: Seq<u8>,
        other: Seq<char>,
        passphrase: Seq<char>,
    )
        requires
            self.security() == before.security(),
            self.records() == before.records().insert(Self::record_key(id), record),
            other != id,
        ensures
            self.fetched(other) == before.fetched(other),
            self.stored_entry(other) == before.stored_entry(other),
            self.secret(other, passphrase) == before.secret(other, passphrase),
    {
        lemma_keys_differ(SECRET_COLLECTION@, other, id);
    }

    /// A file that is not there is told apart from a passphrase that is
    /// wrong: the store answers `NotFound` exactly where it holds no
    /// record for the file; and where it holds an entry whose wrapped key
    /// does not authenticate under the rest key of the passphrase, it
    /// answers `AuthenticationFailed`.
    pub proof fn lemma_not_found_or_not_authenticated(&self, id: Seq<char>, passphrase: Seq<char>)
        requires
            derivable(id, passphrase),
        ensures
            self.secret(id, passphrase) == Err::<SecretEntryWithKeyAndNonceView, ErrorKind>(
                ErrorKind::NotFound,
            ) <==> self.fetched(id) is None,
            self.stored_entry(id) matches Ok(entry) ==> self.security().unwrapped(
                self.security().rest_key_for(id, passphrase),
                entry.key,
            ) is None ==> self.secret(id, passphrase) == Err::<
                SecretEntryWithKeyAndNonceView,
                ErrorKind,
            >(ErrorKind::AuthenticationFailed),
    {
    }

    /// Opens the secret database at `url`, with a new security instance:
    /// a fresh nonce, the default iteration count and the default salt
    /// base. Fails, with `StoreUnavailable`, where the storage cannot be
    /// opened.
    pub fn new(url: String) -> (r: Result<SecretDb, DbError>)
        ensures
            r matches Ok(db) ==> {
                &&& db.url() == url@
                &&& db.security().iterations() == PBKDF2_ITERATIONS
                &&& db.security().salt_base() == SALT_BASE@
            },
            r matches Err(e) ==> e.is_kind(ErrorKind::StoreUnavailable),
    {
        Self::with_security(url, SecurityAtRest::new())
    }

    /// What an attempt to open the storage amounts to: the store over the
    /// database that was opened, which the store takes for its own, with
    /// the given security instance; or `StoreUnavailable` where none was
    /// opened.
    pub fn from_opened(security: SecurityAtRest, opened: Result<sled::Db, sled::Error>) -> (r: Result<
        SecretDb,
        DbError,
    >)
        ensures
            match opened {
                Ok(db) => r matches Ok(store) && {
                    &&& store.url() == opened_at(db)
                    &&& store.security() == security
                    &&& store.records() == stored_records(db)
                },
                Err(_) => r matches Err(e) && e.is_kind(ErrorKind::StoreUnavailable),
            },
    {
        match opened {
            Ok(db) => Ok(SecretDb { security, db }),
            Err(_) => Err(DbError::new(ErrorKind::StoreUnavailable)),
        }
    }

    /// Opens the secret database at `url`, with the given security
    /// instance. Fails, with `StoreUnavailable`, where the storage cannot
    /// be opened.
    pub fn with_security(url: String, security: SecurityAtRest) -> (r: Result<SecretDb, DbError>)
        ensures
            r matches Ok(db) ==> db.url() == url@ && db.security() == security,
            r matches Err(e) ==> e.is_kind(ErrorKind::StoreUnavailable),
    {
        Self::from_opened(security, open_db(url.as_str()))
    }

    /// Inserts a secret entry into the database, under its file name.
    /// Fails, with `StoreUnavailable`, where the storage cannot be
    /// written; the store then holds what it held, with or without the
    /// entry.
    pub fn insert_secret(&mut self, secret_entry: SecretEntry) -> (r: Result<(), DbError>)
        ensures
            final(self).url() == old(self).url(),
            final(self).security() == old(self).security(),
            r is Ok ==> final(self).records() == old(self).records().insert(
                Self::record_key(secret_entry.file_name@),
                secret_entry@.to_bytes(),
            ),
            r is Ok ==> final(self).stored_entry(secret_entry.file_name@) == Ok::<
                SecretEntryView,
                ErrorKind,
            >(secret_entry@),
            r matches Err(e) ==> e.is_kind(ErrorKind::StoreUnavailable),
            final(self).holds_or_held(*old(self), secret_entry@),
    {
        let record = secret_entry.to_bytes();
        proof {
            secret_entry@.lemma_round_trip();
        }
        let key = key_in(SECRET_COLLECTION, secret_entry.file_name.as_str());
        match put_record(&mut self.db, key.as_slice(), record) {
            Ok(()) => Ok(()),
            Err(_) => Err(DbError::new(ErrorKind::StoreUnavailable)),
        }
    }

    /// What a fetched record, or its absence, gives for a file to the
    /// holder of `passphrase`.
    pub fn resolve_secret(
        security: &SecurityAtRest,
        id: &str,
        passphrase: &str,
        fetched: Option<Vec<u8>>,
    ) -> (r: Result<SecretEntryWithKeyAndNonce, DbError>)
        requires
            derivable(id@, passphrase@),
        ensures
            match r {
                Ok(secret) => resolved(*security, id@, passphrase@, fetched_bytes(fetched)) == Ok::<
                    SecretEntryWithKeyAndNonceView,
                    ErrorKind,
                >(secret@),
                Err(e) => e.reports(resolved(*security, id@, passphrase@, fetched_bytes(fetched))),
            },
    {
        let record = match fetched {
            Some(record) => record,
            None => { return Err(DbError::new(ErrorKind::NotFound)); },
        };
        let secret_entry = match SecretEntry::from_bytes(record.as_slice()) {
            Some(entry) => entry,
            None => { return Err(DbError::new(ErrorKind::MalformedInput)); },
        };
        let rest_key = security.derive_rest_key(id, passphrase);
        let (key, nonce) = security.decrypt_key_and_nonce_for_storage(
            rest_key,
            secret_entry.key,
            secret_entry.nonce,
        )?;
        Ok(
            SecretEntryWithKeyAndNonce {
                file_name: secret_entry.file_name,
                total_chunks: secret_entry.total_chunks,
                key,
                nonce,
            },
        )
    }

    /// Gets a secret entry from the database and unwraps it. Apart from a
    /// failure of the storage, reported as `StoreUnavailable`, the outcome
    /// is `self.secret(id, passphrase)`. An identifier or a passphrase
    /// that no rest key can be derived from is a `MalformedInput`, and the
    /// storage is not asked.
    pub fn get_secret(&self, id: &str, passphrase: &str) -> (r: Result<
        SecretEntryWithKeyAndNonce,
        DbError,
    >)
        ensures
            match r {
                Ok(secret) => self.secret(id@, passphrase@) == Ok::<
                    SecretEntryWithKeyAndNonceView,
                    ErrorKind,
                >(secret@),
                Err(e) => (derivable(id@, passphrase@) && e.is_kind(ErrorKind::StoreUnavailable))
                    || e.reports(self.secret(id@, passphrase@)),
            },
            !derivable(id@, passphrase@) ==> fails_with(r, ErrorKind::MalformedInput),
    {
        if !can_derive(id, passphrase) {
            return Err(DbError::new(ErrorKind::MalformedInput));
        }
        let key = key_in(SECRET_COLLECTION, id);
        let fetched = match get_record(&self.db, key.as_slice()) {
            Ok(fetched) => fetched,
            Err(_) => { return Err(DbError::new(ErrorKind::StoreUnavailable)); },
        };
        Self::resolve_secret(&self.security, id, passphrase, fetched)
    }

    /// Creates a secret entry: the key and the nonce wrapped under the
    /// rest key of `id` and `passphrase`.
    pub fn create_secret_entry(
        &self,
        id: &str,
        passphrase: &str,
        total_chunks: usize,
        key_and_nonce: (Key, Nonce),
    ) -> (entry: SecretEntry)
        requires
            derivable(id@, passphrase@),
        ensures
            entry.file_name@ == id@,
            entry.total_chunks == total_chunks,
            entry.key@.len() == KEY_LEN + TAG_LEN,
            entry.nonce@.len() == NONCE_LEN + TAG_LEN,
            self.security().wraps(
                self.security().rest_key_for(id@, passphrase@),
                key_and_nonce.0@,
                entry.key@,
            ),
            self.security().wraps(
                self.security().rest_key_for(id@, passphrase@),
                key_and_nonce.1@,
                entry.nonce@,
            ),
            unsealed(self.security(), entry@, id@, passphrase@) == Ok::<
                SecretEntryWithKeyAndNonceView,
                ErrorKind,
            >(
                SecretEntryWithKeyAndNonceView {
                    file_name: id@,
                    total_chunks,
                    key: key_and_nonce.0@,
                    nonce: key_and_nonce.1@,
                },
            ),
    {
        let rest_key = self.security.derive_rest_key(id, passphrase);
        let (encrypted_key, encrypted_nonce) = self.security.encrypt_key_and_nonce_for_storage(
            rest_key,
            key_and_nonce.0,
            key_and_nonce.1,
        );
        SecretEntry {
            file_name: id.to_owned(),
            total_chunks,
            key: encrypted_key,
            nonce: encrypted_nonce,
        }
    }
}

} // verus!
