//! The payloads of requests.

use crate::crypto::hex::{from_hex, hex_bytes};
use crate::crypto::sign_ed25519::{Signature, ED25519_SIGNATURE_LEN};
use crate::db::{DbError, ErrorKind};
use vstd::prelude::*;
use vstd::utf8::encode_utf8;

verus! {

/// The signature that a text is the hexadecimal text of, if it is that of
/// one.
pub open spec fn signature_of_text(text: Seq<char>) -> Option<Seq<u8>> {
    match hex_bytes(text) {
        None => None,
        Some(bytes) => if bytes.len() == ED25519_SIGNATURE_LEN {
            Some(bytes)
        } else {
            None
        },
    }
}

/// Reads a signature from its hexadecimal text. A text that is not
/// hexadecimal, or not that of 64 bytes, is a `MalformedInput`.
pub fn parse_signature(text: &str) -> (r: Result<Signature, DbError>)
    ensures
        match r {
            Ok(signature) => signature_of_text(text@) == Some(signature@),
            Err(e) => signature_of_text(text@) is None && e.is_kind(ErrorKind::MalformedInput),
        },
{
    let bytes = match from_hex(text) {
        Some(bytes) => bytes,
        None => { return Err(DbError::new(ErrorKind::MalformedInput)); },
    };
    match Signature::from_slice(bytes.as_slice()) {
        Some(signature) => Ok(signature),
        None => Err(DbError::new(ErrorKind::MalformedInput)),
    }
}

/// Whether the bytes of a name are those of a plain file name: not empty,
/// neither `.` nor `..`, and without a slash, a backslash or a zero byte.
pub open spec fn plain_name(name: Seq<u8>) -> bool {
    &&& name.len() > 0
    &&& name != seq![0x2eu8]
    &&& name != seq![0x2eu8, 0x2eu8]
    &&& forall|i: int|
        0 <= i < name.len() ==> #[trigger] name[i] != 0x2f && name[i] != 0x5c && name[i] != 0
}

/// Tests whether a file name is plain, and so names a file in the
/// directory of uploads and nothing else.
pub fn is_plain_file_name(file_name: &str) -> (r: bool)
    ensures
        r == plain_name(encode_utf8(file_name@)),
{
    let name = file_name.as_bytes();
    if name.len() == 0 {
        return false;
    }
    if name.len() == 1 && name[0] == 0x2e {
        return false;
    }
    if name.len() == 2 && name[0] == 0x2e && name[1] == 0x2e {
        assert(name@ =~= seq![0x2eu8, 0x2eu8]);
        return false;
    }
    let mut i: usize = 0;
    while i < name.len()
        invariant
            i <= name@.len(),
            name@ == encode_utf8(file_name@),
            forall|j: int| 0 <= j < i ==> #[trigger] name@[j] != 0x2f && name@[j] != 0x5c && name@[j] != 0,
        decreases name@.len() - i,
    {
        if name[i] == 0x2f || name[i] == 0x5c || name[i] == 0 {
            return false;
        }
        i += 1;
    }
    true
}

/// What comes with an uploaded chunk.
#[derive(Debug, Clone)]
pub struct ChunkMetadataPayload {
    pub file_name: String,
    pub chunk_number: usize,
    pub total_chunks: usize,
    pub timestamp: String,
    pub custom_data: Option<String>,
}

/// What a download asks for.
#[derive(Debug, Clone)]
pub struct DownloadParamsPayload {
    pub offset: u64,
    pub file_name: String,
}

/// What a request to sign or to verify holds.
#[derive(Debug, Clone)]
pub struct SigningDataPayload {
    pub id: String,
    pub message: String,
    pub timestamp: String,
    pub signature: Option<Signature>,
    pub custom_data: Option<String>,
}

} // verus!
