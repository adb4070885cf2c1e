use dicom_metadata_parser::decoder::decode;
use dicom_metadata_parser::document::Document;
use dicom_metadata_parser::element::Element;
use dicom_metadata_parser::json::{
    document_to_json, element_to_json, finish_writing, to_json_string, EmitError,
};
use dicom_metadata_parser::tag::Tag;

fn item(group: u16, number: u16, code: &str, value: &str) -> Element {
    Element {
        tag: Tag { group, element: number },
        type_code: code.to_string(),
        value: value.to_string(),
    }
}

fn expected_entry(code: &str, value: &str) -> serde_json::Value {
    let mut object = serde_json::Map::new();
    object.insert("vr".to_string(), serde_json::Value::String(code.to_string()));
    object.insert(
        "Value".to_string(),
        serde_json::Value::Array(vec![serde_json::Value::String(value.to_string())]),
    );
    serde_json::Value::Object(object)
}

#[test]
fn entry_has_type_code_and_a_list_of_one_value() {
    let value = element_to_json(&item(0x0008, 0x0010, "UI", "1.2."));
    let object = value.as_object().unwrap();
    assert_eq!(object.len(), 2);
    assert_eq!(object.get("vr").unwrap().as_str(), Some("UI"));
    let list = object.get("Value").unwrap().as_array().unwrap();
    assert_eq!(list.len(), 1);
    assert_eq!(list[0].as_str(), Some("1.2."));
    assert_eq!(value, expected_entry("UI", "1.2."));
}

#[test]
fn empty_value_is_still_a_list_of_one() {
    let value = element_to_json(&item(1, 2, "LO", ""));
    let list = value.get("Value").unwrap().as_array().unwrap();
    assert_eq!(list.len(), 1);
    assert_eq!(list[0].as_str(), Some(""));
}

#[test]
fn document_is_an_object_keyed_by_tag_text() {
    let mut doc = Document::new();
    doc.record(item(0x7FE0, 0x0010, "OB", "hi"));
    doc.record(item(0x0008, 0x0010, "UI", "1.2."));
    let value = document_to_json(&doc);
    let object = value.as_object().unwrap();
    assert_eq!(object.len(), 2);
    assert_eq!(object.get("7FE00010"), Some(&expected_entry("OB", "hi")));
    assert_eq!(object.get("00080010"), Some(&expected_entry("UI", "1.2.")));
    assert_eq!(object.get("7fe00010"), None);
}

#[test]
fn empty_document_is_an_empty_object() {
    let doc = Document::new();
    assert_eq!(document_to_json(&doc), serde_json::Value::Object(serde_json::Map::new()));
    assert_eq!(to_json_string(&doc), Ok("{}".to_string()));
}

#[test]
fn json_text_of_one_element() {
    let mut doc = Document::new();
    doc.record(item(0x0008, 0x0010, "UI", "1.2."));
    assert_eq!(
        to_json_string(&doc),
        Ok("{\"00080010\":{\"Value\":[\"1.2.\"],\"vr\":\"UI\"}}".to_string())
    );
}

#[test]
fn json_text_escapes_what_json_requires() {
    let mut doc = Document::new();
    doc.record(item(1, 2, "LO", "a\"b\\c\n\0"));
    assert_eq!(
        to_json_string(&doc),
        Ok("{\"00010002\":{\"Value\":[\"a\\\"b\\\\c\\n\\u0000\"],\"vr\":\"LO\"}}".to_string())
    );
}

#[test]
fn json_text_reads_back_as_the_document() {
    let mut body = vec![0u8; 128];
    body.extend_from_slice(b"DICM");
    body.extend_from_slice(&[0x08, 0, 0x10, 0, b'U', b'I', 4, 0, b'1', b'.', b'2', b'.']);
    body.extend_from_slice(&[0x10, 0, 0x10, 0, b'P', b'N', 2, 0, 0xFF, b'"']);
    body.extend_from_slice(&[0xE0, 0x7F, 0x10, 0, b'O', b'B', 0, 0, 1, 0, 0, 0, b'z']);
    let doc = decode(&body).unwrap();
    let text = to_json_string(&doc).unwrap();
    let parsed = serde_json::from_str::<serde_json::Value>(&text).unwrap();
    assert_eq!(parsed, document_to_json(&doc));
    let object = parsed.as_object().unwrap();
    assert_eq!(object.len(), 3);
    assert_eq!(object.get("00080010"), Some(&expected_entry("UI", "1.2.")));
    assert_eq!(object.get("00100010"), Some(&expected_entry("PN", "\u{FFFD}\"")));
    assert_eq!(object.get("7FE00010"), Some(&expected_entry("OB", "z")));
}

#[test]
fn json_of_a_collision_holds_the_later_element() {
    let mut doc = Document::new();
    doc.record(item(1, 1, "LO", "first"));
    doc.record(item(1, 1, "PN", "second"));
    assert_eq!(
        to_json_string(&doc),
        Ok("{\"00010001\":{\"Value\":[\"second\"],\"vr\":\"PN\"}}".to_string())
    );
}

#[test]
fn json_text_does_not_depend_on_the_order_of_entries() {
    let mut forward = Document::new();
    forward.record(item(1, 1, "LO", "a"));
    forward.record(item(2, 2, "SH", "b"));
    let mut backward = Document::new();
    backward.record(item(2, 2, "SH", "b"));
    backward.record(item(1, 1, "LO", "a"));
    assert_eq!(to_json_string(&forward), to_json_string(&backward));
    assert_eq!(
        to_json_string(&forward),
        Ok("{\"00010001\":{\"Value\":[\"a\"],\"vr\":\"LO\"},\"00020002\":{\"Value\":[\"b\"],\"vr\":\"SH\"}}"
            .to_string())
    );
}

#[test]
fn serializer_outcome_is_passed_on() {
    assert_eq!(finish_writing(Ok("{}".to_string())), Ok("{}".to_string()));
    let failure = serde_json::from_str::<serde_json::Value>("{").unwrap_err();
    assert_eq!(finish_writing(Err(failure)), Err(EmitError::Serialize));
}
