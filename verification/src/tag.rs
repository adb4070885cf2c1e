//! Element tags and their canonical text.

use vstd::prelude::*;
use vstd::string::StringExecFns;

verus! {

/// Identifier of a data element: a group number and an element number.
#[derive(Clone, Copy, Debug, PartialEq, Eq, Structural, Hash)]
pub struct Tag {
    pub group: u16,
    pub element: u16,
}

/// The number that two bytes spell when the first is the low one.
pub open spec fn u16_le(lo: u8, hi: u8) -> int {
    lo as int + 256 * (hi as int)
}

/// The tag that four raw bytes spell: two little-endian 16-bit numbers, group first.
pub open spec fn tag_of_bytes(b0: u8, b1: u8, b2: u8, b3: u8) -> Tag {
    Tag { group: u16_le(b0, b1) as u16, element: u16_le(b2, b3) as u16 }
}

/// Combines two bytes, low byte first, into a 16-bit number.
pub fn read_u16_le(lo: u8, hi: u8) -> (v: u16)
    ensures
        v as int == u16_le(lo, hi),
{
    lo as u16 + (hi as u16) * 256
}

/// The upper-case hexadecimal digit for a number below sixteen.
pub open spec fn hex_digit(n: int) -> char {
    if n == 0 {
        '0'
    } else if n == 1 {
        '1'
    } else if n == 2 {
        '2'
    } else if n == 3 {
        '3'
    } else if n == 4 {
        '4'
    } else if n == 5 {
        '5'
    } else if n == 6 {
        '6'
    } else if n == 7 {
        '7'
    } else if n == 8 {
        '8'
    } else if n == 9 {
        '9'
    } else if n == 10 {
        'A'
    } else if n == 11 {
        'B'
    } else if n == 12 {
        'C'
    } else if n == 13 {
        'D'
    } else if n == 14 {
        'E'
    } else {
        'F'
    }
}

/// A 16-bit number as four hexadecimal digits, highest first.
pub open spec fn hex4(v: int) -> Seq<char> {
    seq![
        hex_digit(v / 4096 % 16),
        hex_digit(v / 256 % 16),
        hex_digit(v / 16 % 16),
        hex_digit(v % 16),
    ]
}

/// Canonical text of a tag: the group and then the element, four
/// hexadecimal digits each.
pub open spec fn tag_text(tag: Tag) -> Seq<char> {
    hex4(tag.group as int) + hex4(tag.element as int)
}

/// Different numbers below sixteen have different digits.
pub proof fn lemma_hex_digit_injective(m: int, n: int)
    requires
        0 <= m < 16,
        0 <= n < 16,
        hex_digit(m) == hex_digit(n),
    ensures
        m == n,
{
}

/// Different 16-bit numbers have different digits.
pub proof fn lemma_hex4_injective(v: int, w: int)
    requires
        0 <= v < 65536,
        0 <= w < 65536,
        hex4(v) == hex4(w),
    ensures
        v == w,
{
    lemma_hex_digit_injective(v / 4096 % 16, w / 4096 % 16);
    lemma_hex_digit_injective(v / 256 % 16, w / 256 % 16);
    lemma_hex_digit_injective(v / 16 % 16, w / 16 % 16);
    lemma_hex_digit_injective(v % 16, w % 16);
}

/// Different tags have different texts.
pub proof fn lemma_tag_text_injective(a: Tag, b: Tag)
    requires
        tag_text(a) == tag_text(b),
    ensures
        a == b,
{
    let text = tag_text(a);
    assert(hex4(a.group as int) =~= text.subrange(0, 4));
    assert(hex4(b.group as int) =~= text.subrange(0, 4));
    assert(hex4(a.element as int) =~= text.subrange(4, 8));
    assert(hex4(b.element as int) =~= text.subrange(4, 8));
    lemma_hex4_injective(a.group as int, b.group as int);
    lemma_hex4_injective(a.element as int, b.element as int);
}

/// The hexadecimal digit for a number below sixteen, as text.
fn hex_digit_text(n: u16) -> (digit: &'static str)
    requires
        n < 16,
    ensures
        digit@ == seq![hex_digit(n as int)],
{
    proof {
        reveal_strlit("0");
        reveal_strlit("1");
        reveal_strlit("2");
        reveal_strlit("3");
        reveal_strlit("4");
        reveal_strlit("5");
        reveal_strlit("6");
        reveal_strlit("7");
        reveal_strlit("8");
        reveal_strlit("9");
        reveal_strlit("A");
        reveal_strlit("B");
        reveal_strlit("C");
        reveal_strlit("D");
        reveal_strlit("E");
        reveal_strlit("F");
    }
    let digit = if n == 0 {
        "0"
    } else if n == 1 {
        "1"
    } else if n == 2 {
        "2"
    } else if n == 3 {
        "3"
    } else if n == 4 {
        "4"
    } else if n == 5 {
        "5"
    } else if n == 6 {
        "6"
    } else if n == 7 {
        "7"
    } else if n == 8 {
        "8"
    } else if n == 9 {
        "9"
    } else if n == 10 {
        "A"
    } else if n == 11 {
        "B"
    } else if n == 12 {
        "C"
    } else if n == 13 {
        "D"
    } else if n == 14 {
        "E"
    } else {
        "F"
    };
    digit
}

/// Appends the four hexadecimal digits of `v` to `text`.
fn push_hex4(text: &mut String, v: u16)
    ensures
        final(text)@ == old(text)@ + hex4(v as int),
{
    text.append(hex_digit_text(v / 4096 % 16));
    text.append(hex_digit_text(v / 256 % 16));
    text.append(hex_digit_text(v / 16 % 16));
    text.append(hex_digit_text(v % 16));
}

impl Tag {
    /// The tag as eight upper-case hexadecimal digits, group first.
    pub fn to_hex(&self) -> (text: String)
        ensures
            text@ == tag_text(*self),
    {
        let mut text = String::new();
        push_hex4(&mut text, self.group);
        push_hex4(&mut text, self.element);
        text
    }

    /// Builds the tag from the four bytes that open an element.
    pub fn from_le_bytes(b0: u8, b1: u8, b2: u8, b3: u8) -> (tag: Tag)
        ensures
            tag == tag_of_bytes(b0, b1, b2, b3),
    {
        Tag { group: read_u16_le(b0, b1), element: read_u16_le(b2, b3) }
    }
}

} // verus!
