//! The backing storage engine: an embedded key-value database, reached
//! only by opening it, putting a record and getting a record.

use vstd::prelude::*;
use vstd::utf8::{encode_utf8, encode_utf8_decode_utf8};

verus! {

/// The byte that parts the name of a collection from the name of a record.
pub const SEPARATOR: u8 = 0x2f;

/// The key of the record `name` in `collection`: the collection's name,
/// the separator, the record's name, the names as UTF-8.
pub open spec fn collection_key(collection: Seq<char>, name: Seq<char>) -> Seq<u8> {
    encode_utf8(collection) + seq![SEPARATOR] + encode_utf8(name)
}

/// Two names have two keys: in one collection, records of different names
/// lie under different keys.
pub proof fn lemma_keys_differ(collection: Seq<char>, name: Seq<char>, other: Seq<char>)
    requires
        name != other,
    ensures
        collection_key(collection, name) != collection_key(collection, other),
{
    let prefix = encode_utf8(collection) + seq![SEPARATOR];
    if collection_key(collection, name) == collection_key(collection, other) {
        assert(collection_key(collection, name).skip(prefix.len() as int) =~= encode_utf8(name));
        assert(collection_key(collection, other).skip(prefix.len() as int) =~= encode_utf8(other));
        encode_utf8_decode_utf8(name);
        encode_utf8_decode_utf8(other);
    }
}

/// Builds the key of the record `name` in `collection`.
pub fn key_in(collection: &str, name: &str) -> (key: Vec<u8>)
    ensures
        key@ == collection_key(collection@, name@),
{
    let mut key: Vec<u8> = Vec::new();
    key.extend_from_slice(collection.as_bytes());
    key.push(SEPARATOR);
    key.extend_from_slice(name.as_bytes());
    key
}

/// The handle of an open database, `sled::Db`. Nothing inside it is seen;
/// what it holds is spoken of through `stored_records`.
#[verifier::external_type_specification]
#[verifier::external_body]
pub struct ExDb(sled::Db);

/// The error of the engine, `sled::Error`. Nothing inside it is seen: every
/// such error is reported as `StoreUnavailable`.
#[verifier::external_type_specification]
#[verifier::external_body]
pub struct ExStorageError(sled::Error);

/// The records that a database holds, as they are seen through its one
/// handle: the value stored under each key.
pub uninterp spec fn stored_records(db: sled::Db) -> Map<Seq<u8>, Seq<u8>>;

/// The place that a database was opened at.
pub uninterp spec fn opened_at(db: sled::Db) -> Seq<char>;

/// The bytes of a fetched record.
pub open spec fn fetched_bytes(fetched: Option<Vec<u8>>) -> Option<Seq<u8>> {
    match fetched {
        None => None,
        Some(bytes) => Some(bytes@),
    }
}

/// Opens, or creates, the database at `url` with `sled::open`. The engine
/// locks the database, so that a second handle cannot be opened while this
/// one lives.
///
/// Trusted: a database that was opened was opened at `url`. Nothing is
/// claimed of what it holds, nor of when the call succeeds.
#[verifier::external_body]
pub(crate) fn open_db(url: &str) -> (r: Result<sled::Db, sled::Error>)
    ensures
        r matches Ok(db) ==> opened_at(db) == url@,
{
    sled::open(url)
}

/// Whether the records `after` are the records `before`, with or without
/// `value` put under `key`.
pub open spec fn kept_or_put(
    after: Map<Seq<u8>, Seq<u8>>,
    before: Map<Seq<u8>, Seq<u8>>,
    key: Seq<u8>,
    value: Seq<u8>,
) -> bool {
    after == before || after == before.insert(key, value)
}

/// Stores `value` under `key` with `sled::Tree::insert`.
///
/// Trusted: where the call succeeds the database holds what it held, but
/// for `key`, which now has `value`. Where it fails the database holds
/// that, or what it held: the engine makes one change for one insert, and
/// an error can come before the change or after it. The database stays
/// where it was opened. The handle is taken as `&mut`, though the engine
/// asks for less, so that what is known of the database before the call
/// is not taken to hold after it.
#[verifier::external_body]
pub(crate) fn put_record(db: &mut sled::Db, key: &[u8], value: Vec<u8>) -> (r: Result<(), sled::Error>)
    ensures
        r is Ok ==> stored_records(*final(db)) == stored_records(*old(db)).insert(key@, value@),
        r is Err ==> kept_or_put(stored_records(*final(db)), stored_records(*old(db)), key@, value@),
        opened_at(*final(db)) == opened_at(*old(db)),
{
    db.insert(key, value).map(|_| ())
}

/// Fetches the value under `key` with `sled::Tree::get`.
///
/// Trusted: where the call succeeds it gives the value that the database
/// holds under `key`, or `None` where it holds none.
#[verifier::external_body]
pub(crate) fn get_record(db: &sled::Db, key: &[u8]) -> (r: Result<Option<Vec<u8>>, sled::Error>)
    ensures
        r matches Ok(Some(value)) ==> stored_records(*db).contains_key(key@) && stored_records(*db)[key@]
            == value@,
        r matches Ok(None) ==> !stored_records(*db).contains_key(key@),
{
    db.get(key).map(|found| found.map(|value| value.to_vec()))
}

} // verus!
