//! The handlers of requests, without their input and output: a chunk is
//! encrypted before it is appended to a file and decrypted after it was
//! read from it; a message is signed, a signature verified.

use super::interfaces::{
    is_plain_file_name, plain_name, ChunkMetadataPayload, DownloadParamsPayload,
    SigningDataPayload,
};
use crate::crypto::secretbox_chacha20_poly1305::{
    open, opened_bytes, seal, sealed_bytes, Key, Nonce, MAX_PLAINTEXT_LEN, TAG_LEN,
};
use crate::crypto::sign_ed25519::{PublicKey, Signature};
use crate::crypto::utils::{generate_key, generate_nonce};
use crate::db::secret_db::{unsealed, SecretDb, SecretEntryWithKeyAndNonceView};
use crate::db::security::derivable;
use crate::db::sign_db::{signable, SigningDb};
use crate::db::{fails_with, DbError, ErrorKind};
use vstd::prelude::*;
use vstd::slice::slice_to_vec;
use vstd::utf8::encode_utf8;

verus! {

/// Whether an upload gets as far as the storage: the chunk is short enough
/// to encrypt, and a rest key can be derived from the identifier and the
/// passphrase.
pub open spec fn uploadable(file_id: Seq<char>, passphrase: Seq<char>, chunk: Seq<u8>) -> bool {
    &&& chunk.len() <= MAX_PLAINTEXT_LEN
    &&& derivable(file_id, passphrase)
}

/// The failure of an upload that is no failure of the storage, if there
/// is one: a chunk that is too long to encrypt is a `MalformedInput`; a
/// file that has no content key yet is no failure; any other failure to
/// get the content key is the failure of the upload.
pub open spec fn upload_failure(
    secret: Result<SecretEntryWithKeyAndNonceView, ErrorKind>,
    chunk: Seq<u8>,
) -> Option<ErrorKind> {
    if chunk.len() > MAX_PLAINTEXT_LEN {
        Some(ErrorKind::MalformedInput)
    } else {
        match secret {
            Ok(_) => None,
            Err(ErrorKind::NotFound) => None,
            Err(kind) => Some(kind),
        }
    }
}

/// Whether the store `after` is `before` with a content key provisioned
/// for a file that had no record: one record is put in, that of an entry
/// for the file with the given number of chunks, which unwraps for the
/// holder of `passphrase`.
pub open spec fn provisions(
    after: SecretDb,
    before: SecretDb,
    file_id: Seq<char>,
    passphrase: Seq<char>,
    total_chunks: usize,
) -> bool {
    &&& before.fetched(file_id) is None
    &&& after.stored_entry(file_id) matches Ok(entry) && {
        &&& entry.file_name == file_id
        &&& entry.total_chunks == total_chunks
        &&& unsealed(after.security(), entry, file_id, passphrase) is Ok
        &&& after.records() == before.records().insert(
            SecretDb::record_key(file_id),
            entry.to_bytes(),
        )
    }
}

/// What a successful upload leaves and gives: the store `after`, made
/// from `before`, holds a content key for the file; `sealed` is the chunk
/// encrypted under that key, and decrypts to it. A content key that was
/// there is left as it was. Where the file had no record, a content key
/// is provisioned for it.
pub open spec fn uploads(
    after: SecretDb,
    before: SecretDb,
    file_id: Seq<char>,
    passphrase: Seq<char>,
    chunk: Seq<u8>,
    total_chunks: usize,
    sealed: Seq<u8>,
) -> bool {
    &&& after.secret(file_id, passphrase) matches Ok(secret) && {
        &&& sealed_bytes(secret.key, secret.nonce, chunk) == Some(sealed)
        &&& opened_bytes(secret.key, secret.nonce, sealed) == Some(chunk)
    }
    &&& sealed.len() == chunk.len() + TAG_LEN
    &&& if before.secret(file_id, passphrase) is Ok {
        after.records() == before.records()
    } else {
        provisions(after, before, file_id, passphrase, total_chunks)
    }
}

/// What a call of `upload_chunk` with outcome `r` makes of the store
/// `before`.
///
/// The store is written only for a file that has no record, and then
/// with the one record that provisions its content key: whatever the
/// outcome, the store is as it was or has that record more.
///
/// A failure is one of the storage, which comes only where the upload
/// gets as far as the storage; or it leaves the store as it was and is
/// the failure that `upload_failure` gives.
pub open spec fn uploaded(
    after: SecretDb,
    before: SecretDb,
    file_id: Seq<char>,
    passphrase: Seq<char>,
    chunk: Seq<u8>,
    total_chunks: usize,
    r: Result<Vec<u8>, DbError>,
) -> bool {
    &&& after.url() == before.url()
    &&& after.security() == before.security()
    &&& after.records() == before.records() || {
        &&& uploadable(file_id, passphrase, chunk)
        &&& provisions(after, before, file_id, passphrase, total_chunks)
    }
    &&& match r {
        Ok(sealed) => uploads(after, before, file_id, passphrase, chunk, total_chunks, sealed@),
        Err(e) => {
            ||| uploadable(file_id, passphrase, chunk) && e.is_kind(ErrorKind::StoreUnavailable)
            ||| {
                &&& after.records() == before.records()
                &&& upload_failure(before.secret(file_id, passphrase), chunk) matches Some(kind)
                    && e.is_kind(kind)
            }
        },
    }
}

/// What decrypting a window of a file gives to the holder of
/// `passphrase`, the storage permitting: the failure to get the content
/// key; nothing, where the window is empty, as it is where the file has
/// ended; the plaintext; or `AuthenticationFailed` where the window does
/// not authenticate under the content key.
pub open spec fn download(db: SecretDb, file_id: Seq<char>, passphrase: Seq<char>, window: Seq<u8>) -> Result<
    Seq<u8>,
    ErrorKind,
> {
    match db.secret(file_id, passphrase) {
        Err(kind) => Err(kind),
        Ok(secret) => if window.len() == 0 {
            Ok(Seq::empty())
        } else {
            match opened_bytes(secret.key, secret.nonce, window) {
                None => Err(ErrorKind::AuthenticationFailed),
                Some(plain) => Ok(plain),
            }
        },
    }
}

/// What a call of `download_chunk` with outcome `r` gives: the plaintext
/// of the window, and whether the file ended in it, which is whether the
/// window is shorter than what was asked for. A failure is one of the
/// storage, which comes only where a rest key can be derived; or it is
/// the failure of `download(..)`.
pub open spec fn downloaded(
    db: SecretDb,
    file_id: Seq<char>,
    passphrase: Seq<char>,
    window: Seq<u8>,
    window_size: usize,
    r: Result<(Vec<u8>, bool), DbError>,
) -> bool {
    match r {
        Ok((plain, ended)) => {
            &&& download(db, file_id, passphrase, window) == Ok::<Seq<u8>, ErrorKind>(plain@)
            &&& ended == (window.len() < window_size)
        },
        Err(e) => {
            ||| derivable(file_id, passphrase) && e.is_kind(ErrorKind::StoreUnavailable)
            ||| e.reports(download(db, file_id, passphrase, window))
        },
    }
}

/// What is uploaded can be downloaded: after a successful upload, the
/// download of what the upload gave, for the same file and passphrase,
/// gives the chunk.
pub proof fn lemma_download_uploaded(
    after: SecretDb,
    before: SecretDb,
    file_id: Seq<char>,
    passphrase: Seq<char>,
    chunk: Seq<u8>,
    total_chunks: usize,
    sealed: Vec<u8>,
)
    requires
        uploaded(after, before, file_id, passphrase, chunk, total_chunks, Ok(sealed)),
    ensures
        download(after, file_id, passphrase, sealed@) == Ok::<Seq<u8>, ErrorKind>(chunk),
{
}

/// Encrypts a chunk of a file, to be appended to what was uploaded of the
/// file before. The first chunk of a file provisions its content key: a
/// fresh key and nonce, wrapped and stored. Every later chunk is
/// encrypted under that same key and nonce, and leaves the store as it
/// is. A chunk that is too long to encrypt, and an identifier or
/// passphrase that no rest key can be derived from, are a
/// `MalformedInput`, and the storage is not asked.
pub fn upload_chunk(
    db: &mut SecretDb,
    file_id: &str,
    passphrase: &str,
    chunk_bytes: Vec<u8>,
    total_chunks: usize,
) -> (r: Result<Vec<u8>, DbError>)
    ensures
        uploaded(*final(db), *old(db), file_id@, passphrase@, chunk_bytes@, total_chunks, r),
        !uploadable(file_id@, passphrase@, chunk_bytes@) ==> fails_with(r, ErrorKind::MalformedInput),
        !uploadable(file_id@, passphrase@, chunk_bytes@) ==> final(db).records() == old(db).records(),
        old(db).fetched(file_id@) is Some ==> final(db).records() == old(db).records(),
{
    if chunk_bytes.len() as u64 > MAX_PLAINTEXT_LEN {
        return Err(DbError::new(ErrorKind::MalformedInput));
    }
    let (key, nonce) = match db.get_secret(file_id, passphrase) {
        Ok(secret) => (secret.key, secret.nonce),
        Err(e) => {
            match e.kind {
                ErrorKind::NotFound => {},
                _ => { return Err(e); },
            }
            let key = Key(generate_key());
            let nonce = Nonce(generate_nonce());
            let entry = db.create_secret_entry(file_id, passphrase, total_chunks, (key, nonce));
            match db.insert_secret(entry) {
                Ok(()) => {},
                Err(e) => { return Err(e); },
            }
            (key, nonce)
        },
    };
    match seal(chunk_bytes, &nonce, &key) {
        Some(sealed) => Ok(sealed),
        None => Err(DbError::new(ErrorKind::MalformedInput)),
    }
}

/// Decrypts a window that was read from a file, and tells whether the
/// file ended in it: whether fewer bytes were read than the `window_size`
/// that was asked for. An empty window, as a read at the end of the file
/// gives it, holds nothing to decrypt and gives no bytes. An identifier
/// or passphrase that no rest key can be derived from is a
/// `MalformedInput`, and the storage is not asked.
pub fn download_chunk(
    db: &SecretDb,
    file_id: &str,
    passphrase: &str,
    window: Vec<u8>,
    window_size: usize,
) -> (r: Result<(Vec<u8>, bool), DbError>)
    ensures
        downloaded(*db, file_id@, passphrase@, window@, window_size, r),
        !derivable(file_id@, passphrase@) ==> fails_with(r, ErrorKind::MalformedInput),
{
    let ended = window.len() < window_size;
    let secret = db.get_secret(file_id, passphrase)?;
    if window.len() == 0 {
        assert(window@ =~= Seq::<u8>::empty());
        return Ok((window, ended));
    }
    match open(window, &secret.nonce, &secret.key) {
        Some(plain) => Ok((plain, ended)),
        None => Err(DbError::new(ErrorKind::AuthenticationFailed)),
    }
}

/// Whether a chunk of `len` bytes can be the chunk with the given number,
/// counted from zero, of a file of `total_chunks` chunks of `chunk_len`
/// bytes: every chunk but the last is `chunk_len` long, and the last is no
/// longer. So the chunks of a file, each longer by the tag once it is
/// encrypted, lie in the file at multiples of one window.
pub open spec fn chunk_fits(chunk_len: usize, chunk_number: usize, total_chunks: usize, len: nat) -> bool {
    &&& chunk_number < total_chunks
    &&& len <= chunk_len
    &&& chunk_number + 1 < total_chunks ==> len == chunk_len
}

/// Whether an upload is one that the service takes: the file name is
/// plain, and the chunk fits its place in the file.
pub open spec fn acceptable(chunk_len: usize, metadata: ChunkMetadataPayload, chunk: Seq<u8>) -> bool {
    &&& plain_name(encode_utf8(metadata.file_name@))
    &&& chunk_fits(chunk_len, metadata.chunk_number, metadata.total_chunks, chunk.len())
}

/// The length of the window that holds one encrypted chunk: the length of
/// a chunk and of the tag, or the greatest length there is where that is
/// more.
pub open spec fn window_of(chunk_len: usize) -> usize {
    if chunk_len + TAG_LEN <= usize::MAX {
        (chunk_len + TAG_LEN) as usize
    } else {
        usize::MAX
    }
}

/// Computes the length of the window that holds one encrypted chunk.
pub fn window_len(chunk_len: usize) -> (r: usize)
    ensures
        r == window_of(chunk_len),
{
    if chunk_len <= usize::MAX - TAG_LEN {
        chunk_len + TAG_LEN
    } else {
        usize::MAX
    }
}

/// Takes a chunk of a file, with what came with it: an upload that the
/// service does not take is a `MalformedInput` and leaves the store as it
/// is; any other is the upload of the chunk for the file that is named.
pub fn handle_upload_raw(
    db: &mut SecretDb,
    metadata: &ChunkMetadataPayload,
    chunk: Vec<u8>,
    passphrase: &str,
    chunk_len: usize,
) -> (r: Result<Vec<u8>, DbError>)
    ensures
        final(db).url() == old(db).url(),
        final(db).security() == old(db).security(),
        !acceptable(chunk_len, *metadata, chunk@) ==> fails_with(r, ErrorKind::MalformedInput),
        !acceptable(chunk_len, *metadata, chunk@) ==> final(db).records() == old(db).records(),
        acceptable(chunk_len, *metadata, chunk@) ==> uploaded(
            *final(db),
            *old(db),
            metadata.file_name@,
            passphrase@,
            chunk@,
            metadata.total_chunks,
            r,
        ),
{
    let last = metadata.chunk_number < metadata.total_chunks && metadata.chunk_number
        == metadata.total_chunks - 1;
    let fits = metadata.chunk_number < metadata.total_chunks && chunk.len() <= chunk_len && (last
        || chunk.len() == chunk_len);
    if !fits || !is_plain_file_name(metadata.file_name.as_str()) {
        return Err(DbError::new(ErrorKind::MalformedInput));
    }
    upload_chunk(db, metadata.file_name.as_str(), passphrase, chunk, metadata.total_chunks)
}

/// Gives a chunk of a file, from the window that was read at the offset
/// asked for: a file name that is not plain is a `MalformedInput`; for any
/// other the window is decrypted as one of `window_len(chunk_len)` bytes.
pub fn handle_download(
    db: &SecretDb,
    params: &DownloadParamsPayload,
    window: Vec<u8>,
    passphrase: &str,
    chunk_len: usize,
) -> (r: Result<(Vec<u8>, bool), DbError>)
    ensures
        !plain_name(encode_utf8(params.file_name@)) ==> fails_with(r, ErrorKind::MalformedInput),
        plain_name(encode_utf8(params.file_name@)) ==> downloaded(
            *db,
            params.file_name@,
            passphrase@,
            window@,
            window_of(chunk_len),
            r,
        ),
{
    if !is_plain_file_name(params.file_name.as_str()) {
        return Err(DbError::new(ErrorKind::MalformedInput));
    }
    download_chunk(db, params.file_name.as_str(), passphrase, window, window_len(chunk_len))
}

/// Signs the message of a request for the identity that it names. An
/// identity that the store holds is left as it is, whatever the outcome.
/// Inputs that cannot be signed for are a `MalformedInput`, and the
/// storage is not asked.
pub fn handle_sign(db: &mut SigningDb, signing_data: &SigningDataPayload, passphrase: &str) -> (r: Result<
    (Signature, PublicKey),
    DbError,
>)
    ensures
        final(db).signed(*old(db), signing_data.id@, passphrase@, encode_utf8(signing_data.message@), r),
        old(db).stored_entry(signing_data.id@) is Ok ==> final(db).records() == old(db).records(),
        !signs_for(*signing_data, passphrase@) ==> fails_with(r, ErrorKind::MalformedInput),
        !signs_for(*signing_data, passphrase@) ==> final(db).records() == old(db).records(),
{
    let message = slice_to_vec(signing_data.message.as_str().as_bytes());
    db.sign(signing_data.id.as_str(), passphrase, message)
}

/// Whether a request holds what can be signed for: a rest key can be
/// derived from its identifier and the passphrase, and its message is
/// short enough to be signed.
pub open spec fn signs_for(signing_data: SigningDataPayload, passphrase: Seq<char>) -> bool {
    &&& derivable(signing_data.id@, passphrase)
    &&& signable(encode_utf8(signing_data.message@))
}

/// What verifying the signature of a request gives, the storage
/// permitting: a request without a signature is a `MalformedInput`.
pub open spec fn request_verdict(
    db: SigningDb,
    id: Seq<char>,
    passphrase: Seq<char>,
    message: Seq<char>,
    signature: Option<Signature>,
) -> Result<bool, ErrorKind> {
    match signature {
        None => Err(ErrorKind::MalformedInput),
        Some(signature) => db.verdict(id, passphrase, encode_utf8(message), signature@),
    }
}

/// What a call of `handle_verify` with outcome `r` gives: what
/// `request_verdict` says. A failure is one of the storage, which comes
/// only for a request with a signature that holds what can be signed for;
/// or it is the failure of `request_verdict(..)`.
pub open spec fn verified(
    db: SigningDb,
    signing_data: SigningDataPayload,
    passphrase: Seq<char>,
    r: Result<bool, DbError>,
) -> bool {
    let verdict = request_verdict(
        db,
        signing_data.id@,
        passphrase,
        signing_data.message@,
        signing_data.signature,
    );
    match r {
        Ok(valid) => verdict == Ok::<bool, ErrorKind>(valid),
        Err(e) => {
            ||| {
                &&& signing_data.signature is Some
                &&& signs_for(signing_data, passphrase)
                &&& e.is_kind(ErrorKind::StoreUnavailable)
            }
            ||| e.reports(verdict)
        },
    }
}

/// Verifies the signature of a request against its message, for the
/// identity that it names. A request without a signature, and one that
/// does not hold what can be signed for, are a `MalformedInput`, and the
/// storage is not asked.
pub fn handle_verify(db: &SigningDb, signing_data: &SigningDataPayload, passphrase: &str) -> (r: Result<
    bool,
    DbError,
>)
    ensures
        verified(*db, *signing_data, passphrase@, r),
        signing_data.signature is None ==> fails_with(r, ErrorKind::MalformedInput),
        !signs_for(*signing_data, passphrase@) ==> fails_with(r, ErrorKind::MalformedInput),
{
    let signature = match signing_data.signature {
        Some(signature) => signature,
        None => { return Err(DbError::new(ErrorKind::MalformedInput)); },
    };
    let message = slice_to_vec(signing_data.message.as_str().as_bytes());
    db.verify(signing_data.id.as_str(), passphrase, message, signature)
}

} // verus!
