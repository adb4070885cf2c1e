use dicom_metadata_parser::layout::LengthLayout;
use dicom_metadata_parser::tag::{read_u16_le, Tag};

#[test]
fn tag_halves_are_little_endian() {
    let tag = Tag::from_le_bytes(0x08, 0x00, 0x10, 0x00);
    assert_eq!(tag, Tag { group: 0x0008, element: 0x0010 });
    let tag = Tag::from_le_bytes(0xE0, 0x7F, 0x34, 0x12);
    assert_eq!(tag, Tag { group: 0x7FE0, element: 0x1234 });
}

#[test]
fn two_bytes_make_a_little_endian_number() {
    assert_eq!(read_u16_le(0x04, 0x00), 4);
    assert_eq!(read_u16_le(0x00, 0x01), 256);
    assert_eq!(read_u16_le(0x34, 0x12), 0x1234);
    assert_eq!(read_u16_le(0xFF, 0xFF), u16::MAX);
}

#[test]
fn tag_text_is_eight_upper_case_hex_digits() {
    assert_eq!(Tag { group: 0x0008, element: 0x0010 }.to_hex(), "00080010");
    assert_eq!(Tag { group: 0x7FE0, element: 0x0010 }.to_hex(), "7FE00010");
    assert_eq!(Tag { group: 0xABCD, element: 0xEF09 }.to_hex(), "ABCDEF09");
    assert_eq!(Tag { group: 0, element: 0 }.to_hex(), "00000000");
    assert_eq!(Tag { group: 0xFFFF, element: 0xFFFF }.to_hex(), "FFFFFFFF");
    assert_eq!(Tag { group: 0x1234, element: 0x5678 }.to_hex(), "12345678");
}

#[test]
fn tag_text_matches_the_usual_formatting() {
    for (group, element) in [(0u16, 1u16), (0x00A0, 0x0B00), (0x9ABC, 0xDEF0), (0x0102, 0x0304)] {
        assert_eq!(Tag { group, element }.to_hex(), format!("{:04X}{:04X}", group, element));
    }
}

#[test]
fn six_codes_have_the_extended_layout() {
    for code in ["OB", "OW", "OF", "SQ", "UT", "UN"] {
        assert_eq!(LengthLayout::for_type_code(code), LengthLayout::Extended);
    }
}

#[test]
fn no_other_code_has_the_extended_layout() {
    for code in [
        "UI", "LO", "PN", "US", "UL", "OD", "OL", "UC", "UR", "ob", "Ob", "oB", "BO", "QS", "TU",
        "NU", "O", "B", "", "OBX", "OB ", " OB", "\0\0", "U\0", "é", "\u{FFFD}B", "ÖB",
    ] {
        assert_eq!(LengthLayout::for_type_code(code), LengthLayout::Short);
    }
}

#[test]
fn value_starts_after_eight_or_twelve_bytes() {
    assert_eq!(LengthLayout::Short.value_offset(), 8);
    assert_eq!(LengthLayout::Extended.value_offset(), 12);
}
