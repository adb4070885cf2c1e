use dicom_metadata_parser::document::Document;
use dicom_metadata_parser::element::Element;
use dicom_metadata_parser::tag::Tag;

fn item(group: u16, number: u16, code: &str, value: &str) -> Element {
    Element {
        tag: Tag { group, element: number },
        type_code: code.to_string(),
        value: value.to_string(),
    }
}

#[test]
fn new_document_is_empty() {
    let doc = Document::new();
    assert!(doc.is_empty());
    assert_eq!(doc.len(), 0);
    assert_eq!(doc.entry(0), None);
    assert_eq!(doc.get(Tag { group: 0, element: 0 }), None);
}

#[test]
fn recorded_elements_are_found_by_tag() {
    let mut doc = Document::new();
    doc.record(item(1, 2, "LO", "a"));
    doc.record(item(3, 4, "SH", "b"));
    assert!(!doc.is_empty());
    assert_eq!(doc.len(), 2);
    assert_eq!(doc.get(Tag { group: 1, element: 2 }), Some(&item(1, 2, "LO", "a")));
    assert_eq!(doc.get(Tag { group: 3, element: 4 }), Some(&item(3, 4, "SH", "b")));
    assert_eq!(doc.get(Tag { group: 2, element: 1 }), None);
    assert_eq!(doc.get(Tag { group: 1, element: 4 }), None);
}

#[test]
fn entries_come_in_order_of_first_encounter() {
    let mut doc = Document::new();
    doc.record(item(9, 9, "LO", "a"));
    doc.record(item(1, 1, "LO", "b"));
    doc.record(item(5, 5, "LO", "c"));
    assert_eq!(doc.entry(0), Some(&item(9, 9, "LO", "a")));
    assert_eq!(doc.entry(1), Some(&item(1, 1, "LO", "b")));
    assert_eq!(doc.entry(2), Some(&item(5, 5, "LO", "c")));
    assert_eq!(doc.entry(3), None);
    assert_eq!(doc.entry(usize::MAX), None);
}

#[test]
fn recording_a_known_tag_overwrites() {
    let mut doc = Document::new();
    doc.record(item(1, 1, "LO", "first"));
    doc.record(item(2, 2, "LO", "other"));
    doc.record(item(1, 1, "PN", "second"));
    assert_eq!(doc.len(), 2);
    assert_eq!(doc.entry(0), Some(&item(1, 1, "PN", "second")));
    assert_eq!(doc.entry(1), Some(&item(2, 2, "LO", "other")));
    assert_eq!(doc.get(Tag { group: 1, element: 1 }), Some(&item(1, 1, "PN", "second")));
}

#[test]
fn recording_the_same_element_twice_keeps_one_entry() {
    let mut doc = Document::new();
    doc.record(item(1, 1, "LO", "x"));
    doc.record(item(1, 1, "LO", "x"));
    assert_eq!(doc.len(), 1);
    assert_eq!(doc.entry(0), Some(&item(1, 1, "LO", "x")));
}
