//! The framing of stored records: a record is a list of byte fields, each
//! written as its length in eight little-endian bytes and then its bytes.

use vstd::bytes::{
    lemma_auto_spec_u64_to_from_le_bytes, spec_u64_from_le_bytes, spec_u64_to_le_bytes,
    u64_from_le_bytes, u64_to_le_bytes,
};
use vstd::prelude::*;
use vstd::slice::{slice_subrange, slice_to_vec};
use vstd::utf8::{decode_utf8, valid_utf8};

verus! {

/// Number of bytes that hold the length of a field.
pub const LENGTH_BYTES: usize = 8;

/// One field as it is written: its length, then its bytes.
pub open spec fn framed_field(field: Seq<u8>) -> Seq<u8> {
    spec_u64_to_le_bytes(field.len() as u64) + field
}

/// A list of fields as it is written: one field after the other.
pub open spec fn framed(fields: Seq<Seq<u8>>) -> Seq<u8>
    decreases fields.len(),
{
    if fields.len() == 0 {
        Seq::empty()
    } else {
        framed_field(fields.first()) + framed(fields.drop_first())
    }
}

/// The fields that `bytes` is the writing of, if it is the writing of any.
pub open spec fn unframed(bytes: Seq<u8>) -> Option<Seq<Seq<u8>>>
    decreases bytes.len(),
{
    if bytes.len() == 0 {
        Some(Seq::empty())
    } else if bytes.len() < LENGTH_BYTES {
        None
    } else {
        let n = spec_u64_from_le_bytes(bytes.take(LENGTH_BYTES as int)) as int;
        if bytes.len() - LENGTH_BYTES < n {
            None
        } else {
            match unframed(bytes.skip(LENGTH_BYTES + n)) {
                None => None,
                Some(rest) => Some(seq![bytes.subrange(LENGTH_BYTES as int, LENGTH_BYTES + n)] + rest),
            }
        }
    }
}

/// Whether every field is short enough for its length to be written.
pub open spec fn frameable(fields: Seq<Seq<u8>>) -> bool {
    forall|i: int| 0 <= i < fields.len() ==> (#[trigger] fields[i]).len() <= u64::MAX
}

/// The byte sequences that a list of vectors holds.
pub open spec fn views(fields: Seq<Vec<u8>>) -> Seq<Seq<u8>> {
    Seq::new(fields.len(), |i: int| fields[i]@)
}

/// Reading what was written gives the fields back.
pub proof fn lemma_unframed_framed(fields: Seq<Seq<u8>>)
    requires
        frameable(fields),
    ensures
        unframed(framed(fields)) == Some(fields),
    decreases fields.len(),
{
    lemma_auto_spec_u64_to_from_le_bytes();
    if fields.len() == 0 {
    } else {
        let head = fields.first();
        let tail = fields.drop_first();
        let bytes = framed(fields);
        let n = head.len() as int;
        lemma_unframed_framed(tail);
        assert(bytes.take(LENGTH_BYTES as int) =~= spec_u64_to_le_bytes(n as u64));
        assert(bytes.subrange(LENGTH_BYTES as int, LENGTH_BYTES + n) =~= head);
        assert(bytes.skip(LENGTH_BYTES + n) =~= framed(tail));
    }
}

/// Whatever can be read is the writing of what was read, and can be
/// written.
pub proof fn lemma_framed_unframed(bytes: Seq<u8>)
    ensures
        unframed(bytes) matches Some(fields) ==> framed(fields) == bytes && frameable(fields),
    decreases bytes.len(),
{
    lemma_auto_spec_u64_to_from_le_bytes();
    if bytes.len() >= LENGTH_BYTES {
        let n = spec_u64_from_le_bytes(bytes.take(LENGTH_BYTES as int)) as int;
        if bytes.len() - LENGTH_BYTES >= n {
            let rest_bytes = bytes.skip(LENGTH_BYTES + n);
            lemma_framed_unframed(rest_bytes);
            if let Some(rest) = unframed(rest_bytes) {
                let head = bytes.subrange(LENGTH_BYTES as int, LENGTH_BYTES + n);
                let fields = seq![head] + rest;
                assert(fields.drop_first() =~= rest);
            }
        }
    }
}

/// Writes a list of fields.
pub fn frame(fields: &Vec<Vec<u8>>) -> (out: Vec<u8>)
    ensures
        out@ == framed(views(fields@)),
{
    let ghost all = views(fields@);
    let mut out: Vec<u8> = Vec::new();
    let mut i: usize = 0;
    assert(all.skip(0) =~= all);
    while i < fields.len()
        invariant
            i <= fields@.len(),
            all == views(fields@),
            out@ + framed(all.skip(i as int)) == framed(all),
        decreases fields@.len() - i,
    {
        let field = &fields[i];
        let prefix = u64_to_le_bytes(field.len() as u64);
        out.extend_from_slice(prefix.as_slice());
        out.extend_from_slice(field.as_slice());
        assert(all.skip(i as int).drop_first() =~= all.skip(i + 1));
        i += 1;
    }
    out
}

/// Reads a list of fields, if `bytes` is the writing of one.
pub fn unframe(bytes: &[u8]) -> (r: Option<Vec<Vec<u8>>>)
    ensures
        match r {
            Some(fields) => unframed(bytes@) == Some(views(fields@)),
            None => unframed(bytes@) is None,
        },
{
    let mut fields: Vec<Vec<u8>> = Vec::new();
    let mut pos: usize = 0;
    assert(bytes@.skip(0) =~= bytes@);
    while pos < bytes.len()
        invariant
            pos <= bytes@.len(),
            unframed(bytes@) == match unframed(bytes@.skip(pos as int)) {
                None => None::<Seq<Seq<u8>>>,
                Some(rest) => Some(views(fields@) + rest),
            },
        decreases bytes@.len() - pos,
    {
        let ghost here = bytes@.skip(pos as int);
        let left = bytes.len() - pos;
        if left < LENGTH_BYTES {
            return None;
        }
        let n = u64_from_le_bytes(slice_subrange(bytes, pos, pos + LENGTH_BYTES));
        assert(here.take(LENGTH_BYTES as int) =~= bytes@.subrange(pos as int, pos + LENGTH_BYTES));
        if n > (left - LENGTH_BYTES) as u64 {
            return None;
        }
        let start = pos + LENGTH_BYTES;
        let end = start + n as usize;
        let field = slice_to_vec(slice_subrange(bytes, start, end));
        proof {
            assert(here.subrange(LENGTH_BYTES as int, LENGTH_BYTES + n) =~= field@);
            assert(here.skip(LENGTH_BYTES + n) =~= bytes@.skip(end as int));
        }
        fields.push(field);
        pos = end;
    }
    Some(fields)
}

/// The text that `bytes` encodes, if they are UTF-8, from
/// `String::from_utf8`.
///
/// Trusted: the conversion succeeds exactly on valid UTF-8, and the text
/// is what the bytes decode to.
#[verifier::external_body]
pub(crate) fn text_of(bytes: Vec<u8>) -> (r: Option<String>)
    ensures
        r is Some <==> valid_utf8(bytes@),
        r matches Some(s) ==> s@ == decode_utf8(bytes@),
{
    String::from_utf8(bytes).ok()
}

} // verus!
