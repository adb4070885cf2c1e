//! The two layouts of an element's length field.
//!
//! Six type codes announce payloads that may be large or structured: `OB`,
//! `OW`, `OF`, `SQ`, `UT` and `UN`. Their length is a 32-bit number that
//! follows two reserved bytes. Every other type code is followed directly by
//! a 16-bit length. The table is closed: no other code, and no text near one
//! of the six, selects the extended layout.

use crate::text::{lemma_ascii_decodes_to_itself, lossy_decoded, lossy_text, REPLACEMENT};
use vstd::prelude::*;
use vstd::utf8::{decode_utf8, valid_utf8};

verus! {

/// How the length of an element's value is laid out after the type code.
#[derive(Clone, Copy, Debug, PartialEq, Eq, Structural)]
pub enum LengthLayout {
    /// A 16-bit length directly after the type code.
    Short,
    /// Two reserved bytes, then a 32-bit length.
    Extended,
}

/// The closed table of type codes with the extended layout.
pub open spec fn is_extended_code(code: Seq<char>) -> bool {
    ||| code =~= seq!['O', 'B']
    ||| code =~= seq!['O', 'W']
    ||| code =~= seq!['O', 'F']
    ||| code =~= seq!['S', 'Q']
    ||| code =~= seq!['U', 'T']
    ||| code =~= seq!['U', 'N']
}

/// The same table over the two raw bytes of a type code.
pub open spec fn is_extended_bytes(b0: u8, b1: u8) -> bool {
    ||| b0 == 0x4F && b1 == 0x42
    ||| b0 == 0x4F && b1 == 0x57
    ||| b0 == 0x4F && b1 == 0x46
    ||| b0 == 0x53 && b1 == 0x51
    ||| b0 == 0x55 && b1 == 0x54
    ||| b0 == 0x55 && b1 == 0x4E
}

/// The layout that a type code selects.
pub open spec fn layout_of(code: Seq<char>) -> LengthLayout {
    if is_extended_code(code) {
        LengthLayout::Extended
    } else {
        LengthLayout::Short
    }
}

/// The layout that the two raw bytes of a type code select.
pub open spec fn layout_of_bytes(b0: u8, b1: u8) -> LengthLayout {
    if is_extended_bytes(b0, b1) {
        LengthLayout::Extended
    } else {
        LengthLayout::Short
    }
}

/// Two bytes that are valid UTF-8 encode either two ASCII characters, those
/// of the bytes' numbers, or a single character.
proof fn lemma_text_of_two_bytes(b0: u8, b1: u8)
    requires
        valid_utf8(seq![b0, b1]),
    ensures
        b0 < 128 && b1 < 128 ==> decode_utf8(seq![b0, b1]) == seq![b0 as char, b1 as char],
        !(b0 < 128 && b1 < 128) ==> decode_utf8(seq![b0, b1]).len() == 1,
{
    reveal_with_fuel(valid_utf8, 3);
    reveal_with_fuel(decode_utf8, 3);
    if b0 < 128 {
        assert(b0 & 0x7F == b0) by (bit_vector)
            requires
                b0 < 128,
        ;
        assert(b1 & 0x7F == b1) by (bit_vector)
            requires
                b1 < 128,
        ;
    }
}

impl LengthLayout {
    /// Number of bytes from the start of an element to the start of its value:
    /// tag, type code, reserved bytes if any, and length field.
    pub open spec fn spec_value_offset(self) -> nat {
        match self {
            LengthLayout::Short => 8,
            LengthLayout::Extended => 12,
        }
    }

    /// Looks the type code up in the table of extended codes.
    pub fn for_type_code(code: &str) -> (layout: LengthLayout)
        ensures
            layout == layout_of(code@),
    {
        if code.unicode_len() != 2 {
            return LengthLayout::Short;
        }
        let first: char = code.get_char(0);
        let second: char = code.get_char(1);
        let extended = (first == 'O' && (second == 'B' || second == 'W' || second == 'F'))
            || (first == 'S' && second == 'Q')
            || (first == 'U' && (second == 'T' || second == 'N'));
        if extended {
            LengthLayout::Extended
        } else {
            LengthLayout::Short
        }
    }

    /// Number of bytes from the start of an element to the start of its value.
    pub fn value_offset(self) -> (offset: usize)
        ensures
            offset == self.spec_value_offset(),
    {
        match self {
            LengthLayout::Short => 8,
            LengthLayout::Extended => 12,
        }
    }
}

/// Decodes the two bytes of a type code to text and selects the layout of
/// the length field by that text.
///
/// The text selects the extended layout exactly where the bytes are those of
/// one of the six codes, whatever the bytes are. Bytes that are not valid
/// UTF-8 show in the text as a replacement character.
pub fn read_type_code(b0: u8, b1: u8) -> (found: (String, LengthLayout))
    ensures
        found.0@ == lossy_decoded(seq![b0, b1]),
        !valid_utf8(seq![b0, b1]) ==> found.0@.contains(REPLACEMENT),
        found.1 == layout_of(found.0@),
        found.1 == layout_of_bytes(b0, b1),
{
    let raw: [u8; 2] = [b0, b1];
    let text = lossy_text(raw.as_slice());
    let layout = LengthLayout::for_type_code(text.as_str());
    proof {
        let both = seq![b0, b1];
        if b0 < 128 && b1 < 128 {
            lemma_ascii_decodes_to_itself(both);
        } else if valid_utf8(both) {
            lemma_text_of_two_bytes(b0, b1);
        } else {
            assert(exists|i: int| 0 <= i < text@.len() && text@[i] == REPLACEMENT);
        }
    }
    (text, layout)
}

} // verus!
