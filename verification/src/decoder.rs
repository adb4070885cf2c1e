//! Decoding a whole file.
//!
//! A file opens with a preamble of 128 bytes, whose content is ignored, and
//! the four-byte marker `DICM`. Elements follow until the stream ends. A file
//! without the marker is rejected. Whatever ends the stream after the marker
//! is no error: the elements decoded up to there make the document.

use crate::document::{record_all, Document};
use crate::element::{consumed_at, decode_element, element_at, has_element, tail, ElementView};
use vstd::prelude::*;

verus! {

/// Number of bytes that come before the marker.
pub const PREAMBLE_LEN: usize = 128;

/// Position of the first element: just past the marker.
pub const BODY_START: usize = 132;

/// Why a file could not be decoded.
#[derive(Clone, Copy, Debug, PartialEq, Eq, Structural)]
pub enum DecodeError {
    /// The four bytes after the preamble are not the marker.
    Format,
}

/// The marker: the bytes of `DICM`.
pub open spec fn marker() -> Seq<u8> {
    seq![0x44u8, 0x49u8, 0x43u8, 0x4Du8]
}

/// Whether the marker stands right after the preamble.
pub open spec fn has_marker(bytes: Seq<u8>) -> bool {
    &&& bytes.len() >= BODY_START
    &&& bytes.subrange(PREAMBLE_LEN as int, BODY_START as int) == marker()
}

/// The elements that `rest` encodes, in order, up to where the stream ends.
pub open spec fn elements_of(rest: Seq<u8>) -> Seq<ElementView>
    decreases rest.len(),
{
    if has_element(rest) {
        seq![element_at(rest)] + elements_of(rest.skip(consumed_at(rest)))
    } else {
        Seq::empty()
    }
}

/// The entries of the document that a file with the marker decodes to.
pub open spec fn decoded_entries(bytes: Seq<u8>) -> Seq<ElementView> {
    record_all(elements_of(tail(bytes, BODY_START as int)))
}

/// Whether `outcome` is what decoding `bytes` returns: the document of
/// [`decoded_entries`] where the marker is there, the format error where it
/// is not.
pub open spec fn decodes_to(bytes: Seq<u8>, outcome: Result<Document, DecodeError>) -> bool {
    match outcome {
        Ok(doc) => has_marker(bytes) && doc@ == decoded_entries(bytes),
        Err(e) => !has_marker(bytes) && e == DecodeError::Format,
    }
}

impl DecodeError {
    /// Text of the error for a reader.
    pub fn message(&self) -> (text: String)
        ensures
            text@ == "File does not have the DICOM prefix."@,
    {
        match self {
            DecodeError::Format => "File does not have the DICOM prefix.".to_string(),
        }
    }
}

/// Checks for the marker after the preamble.
pub fn check_marker(bytes: &[u8]) -> (found: bool)
    ensures
        found == has_marker(bytes@),
{
    if bytes.len() < BODY_START {
        return false;
    }
    let found = bytes[PREAMBLE_LEN] == 0x44 && bytes[PREAMBLE_LEN + 1] == 0x49 && bytes[PREAMBLE_LEN
        + 2] == 0x43 && bytes[PREAMBLE_LEN + 3] == 0x4D;
    proof {
        let after = bytes@.subrange(PREAMBLE_LEN as int, BODY_START as int);
        assert(after[0] == bytes@[128] && after[1] == bytes@[129] && after[2] == bytes@[130]
            && after[3] == bytes@[131]);
        assert(found ==> after =~= marker());
    }
    found
}

/// Decodes the elements that start at position `start` and records each in
/// a document, in order.
pub fn decode_elements(bytes: &[u8], start: usize) -> (doc: Document)
    ensures
        doc@ == record_all(elements_of(tail(bytes@, start as int))),
{
    let ghost all = elements_of(tail(bytes@, start as int));
    let ghost mut done: Seq<ElementView> = Seq::empty();
    let mut doc = Document::new();
    let mut pos: usize = start;
    loop
        invariant
            all == done + elements_of(tail(bytes@, pos as int)),
            doc@ == record_all(done),
        ensures
            doc@ == record_all(all),
        decreases bytes@.len() - pos,
    {
        match decode_element(bytes, pos) {
            None => {
                break ;
            },
            Some((element, next)) => {
                proof {
                    let rest = tail(bytes@, pos as int);
                    assert(rest.skip(consumed_at(rest)) =~= tail(bytes@, next as int));
                    let grown = done.push(element@);
                    assert(grown.drop_last() =~= done);
                    assert(done + (seq![element@] + elements_of(tail(bytes@, next as int)))
                        =~= grown + elements_of(tail(bytes@, next as int)));
                    done = grown;
                }
                doc.record(element);
                pos = next;
            },
        }
    }
    doc
}

/// Decodes a file.
///
/// Fails with [`DecodeError::Format`] exactly where the marker is missing.
/// Otherwise the document holds what [`decoded_entries`] says: each element
/// of the stream, a later one in the place of an earlier one with its tag.
/// No partial document comes with a failure.
pub fn decode(bytes: &[u8]) -> (outcome: Result<Document, DecodeError>)
    ensures
        decodes_to(bytes@, outcome),
{
    if !check_marker(bytes) {
        return Err(DecodeError::Format);
    }
    Ok(decode_elements(bytes, BODY_START))
}

} // verus!
