//! One data element and its encoding.
//!
//! An element is laid out as
//!
//! ```text
//! tag (4) | type code (2) | length (2)                | value (length)
//! tag (4) | type code (2) | reserved (2) | length (4) | value (length)
//! ```
//!
//! with all numbers little-endian. The second form is used by the type codes
//! of [`crate::layout::is_extended_code`].
//!
//! A stream may end inside an element. Fewer than four bytes where a tag is
//! due, or fewer value bytes than the length announces, end the stream: no
//! element is decoded there. Bytes that are missing from the type code, the
//! reserved bytes or the length field read as zero.

use crate::layout::{layout_of_bytes, read_type_code, LengthLayout};
use crate::tag::{read_u16_le, tag_of_bytes, u16_le, Tag};
use crate::text::{lossy_decoded, lossy_text, REPLACEMENT};
use vstd::prelude::*;
use vstd::slice::slice_subrange;
use vstd::utf8::valid_utf8;

verus! {

/// A decoded data element: its tag, its type code and its value as text.
#[derive(Clone, Debug, PartialEq, Eq)]
pub struct Element {
    pub tag: Tag,
    pub type_code: String,
    pub value: String,
}

/// Mathematical content of an [`Element`].
pub struct ElementView {
    pub tag: Tag,
    pub type_code: Seq<char>,
    pub value: Seq<char>,
}

impl View for Element {
    type V = ElementView;

    open spec fn view(&self) -> ElementView {
        ElementView { tag: self.tag, type_code: self.type_code@, value: self.value@ }
    }
}

/// The byte at index `i`, or zero past the end.
pub open spec fn byte_or_zero(bytes: Seq<u8>, i: int) -> u8 {
    if 0 <= i < bytes.len() {
        bytes[i]
    } else {
        0u8
    }
}

/// The number that four bytes spell when the first is the lowest.
pub open spec fn u32_le(b0: u8, b1: u8, b2: u8, b3: u8) -> int {
    b0 as int + 256 * (b1 as int) + 65536 * (b2 as int) + 16777216 * (b3 as int)
}

/// Tag of the element that starts `rest`, which holds at least four bytes.
pub open spec fn tag_at(rest: Seq<u8>) -> Tag {
    tag_of_bytes(rest[0], rest[1], rest[2], rest[3])
}

/// The two bytes of the type code, zero where the stream has ended.
pub open spec fn type_code_bytes_at(rest: Seq<u8>) -> Seq<u8> {
    seq![byte_or_zero(rest, 4), byte_or_zero(rest, 5)]
}

/// Type code of the element that starts `rest`.
pub open spec fn type_code_at(rest: Seq<u8>) -> Seq<char> {
    lossy_decoded(type_code_bytes_at(rest))
}

/// Layout of the length field of the element that starts `rest`.
pub open spec fn layout_at(rest: Seq<u8>) -> LengthLayout {
    layout_of_bytes(byte_or_zero(rest, 4), byte_or_zero(rest, 5))
}

/// Announced length of the value of the element that starts `rest`.
pub open spec fn length_at(rest: Seq<u8>) -> int {
    match layout_at(rest) {
        LengthLayout::Short => u16_le(byte_or_zero(rest, 6), byte_or_zero(rest, 7)),
        LengthLayout::Extended => u32_le(
            byte_or_zero(rest, 8),
            byte_or_zero(rest, 9),
            byte_or_zero(rest, 10),
            byte_or_zero(rest, 11),
        ),
    }
}

/// Index in `rest` at which the value of its first element starts.
pub open spec fn value_start_at(rest: Seq<u8>) -> int {
    layout_at(rest).spec_value_offset() as int
}

/// Whether `rest` holds every byte of the value that its first element announces.
pub open spec fn value_present(rest: Seq<u8>) -> bool {
    length_at(rest) == 0 || value_start_at(rest) + length_at(rest) <= rest.len()
}

/// Whether an element can be decoded at the start of `rest`.
pub open spec fn has_element(rest: Seq<u8>) -> bool {
    rest.len() >= 4 && value_present(rest)
}

/// The raw value of the first element of `rest`, where [`has_element`] holds.
pub open spec fn value_bytes_at(rest: Seq<u8>) -> Seq<u8> {
    if length_at(rest) == 0 {
        Seq::empty()
    } else {
        rest.subrange(value_start_at(rest), value_start_at(rest) + length_at(rest))
    }
}

/// The first element of `rest`, where [`has_element`] holds.
pub open spec fn element_at(rest: Seq<u8>) -> ElementView {
    ElementView {
        tag: tag_at(rest),
        type_code: type_code_at(rest),
        value: lossy_decoded(value_bytes_at(rest)),
    }
}

/// Number of bytes of `rest` that its first element takes up, where
/// [`has_element`] holds. A header cut short by the end of the stream takes
/// up what is left.
pub open spec fn consumed_at(rest: Seq<u8>) -> int {
    let end = value_start_at(rest) + length_at(rest);
    if end <= rest.len() {
        end
    } else {
        rest.len() as int
    }
}

/// What is left of `bytes` from position `pos` on; nothing for a position
/// past the end.
pub open spec fn tail(bytes: Seq<u8>, pos: int) -> Seq<u8> {
    if 0 <= pos <= bytes.len() {
        bytes.skip(pos)
    } else {
        Seq::empty()
    }
}

/// Combines four bytes, lowest first, into a 32-bit number.
pub fn read_u32_le(b0: u8, b1: u8, b2: u8, b3: u8) -> (v: u32)
    ensures
        v as int == u32_le(b0, b1, b2, b3),
{
    b0 as u32 + (b1 as u32) * 256 + (b2 as u32) * 65536 + (b3 as u32) * 16777216
}

/// The byte at index `i` of the slice, or zero past its end.
pub fn get_or_zero(bytes: &[u8], i: usize) -> (b: u8)
    ensures
        b == byte_or_zero(bytes@, i as int),
{
    if i < bytes.len() {
        bytes[i]
    } else {
        0
    }
}

/// Decodes the element that starts at position `pos` of `bytes`.
///
/// Returns the element and the position just past it, or `None` where the
/// stream ends: at a position with fewer than four bytes left, or where the
/// value is cut short. Type code and value are decoded lossily: bytes that
/// are not valid UTF-8 show in the text as a replacement character.
pub fn decode_element(bytes: &[u8], pos: usize) -> (found: Option<(Element, usize)>)
    ensures
        found is Some <==> has_element(tail(bytes@, pos as int)),
        found matches Some((element, next)) ==> {
            &&& element@ == element_at(tail(bytes@, pos as int))
            &&& !valid_utf8(type_code_bytes_at(tail(bytes@, pos as int)))
                ==> element.type_code@.contains(REPLACEMENT)
            &&& !valid_utf8(value_bytes_at(tail(bytes@, pos as int)))
                ==> element.value@.contains(REPLACEMENT)
            &&& next as int == pos + consumed_at(tail(bytes@, pos as int))
            &&& pos < next <= bytes@.len()
        },
{
    let len: usize = bytes.len();
    if pos > len || len - pos < 4 {
        return None;
    }
    let rest = slice_subrange(bytes, pos, len);
    let avail: usize = rest.len();
    let tag = Tag::from_le_bytes(rest[0], rest[1], rest[2], rest[3]);
    let (type_code, layout) = read_type_code(get_or_zero(rest, 4), get_or_zero(rest, 5));
    let length: usize = match layout {
        LengthLayout::Short => read_u16_le(get_or_zero(rest, 6), get_or_zero(rest, 7)) as usize,
        LengthLayout::Extended => read_u32_le(
            get_or_zero(rest, 8),
            get_or_zero(rest, 9),
            get_or_zero(rest, 10),
            get_or_zero(rest, 11),
        ) as usize,
    };
    let start: usize = layout.value_offset();
    if length == 0 {
        let value = lossy_text(slice_subrange(rest, 0, 0));
        let taken: usize = if start <= avail { start } else { avail };
        return Some((Element { tag, type_code, value }, pos + taken));
    }
    if avail < start || avail - start < length {
        return None;
    }
    let value = lossy_text(slice_subrange(rest, start, start + length));
    Some((Element { tag, type_code, value }, pos + start + length))
}

} // verus!
