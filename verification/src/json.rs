//! A document as JSON.
//!
//! The document becomes one JSON object with a member for each entry, named
//! by the text of the entry's tag. The member is an object of two members:
//! `vr` holds the type code, and `Value` holds a list whose single item is
//! the value. The values are built and written out by `serde_json`.

use crate::document::{distinct_tags, Document};
use crate::element::{Element, ElementView};
use crate::tag::{lemma_tag_text_injective, tag_text};
use vstd::prelude::*;

verus! {

/// Declares `serde_json::Value`, a JSON value. Nothing inside it is visible
/// to the proofs: what it holds is named [`json_shape`].
#[verifier::external_type_specification]
#[verifier::external_body]
pub struct ExJsonValue(serde_json::Value);

/// Declares `serde_json::Map`, the members of a JSON object. What it holds
/// is named [`json_members`].
#[verifier::external_type_specification]
#[verifier::external_body]
#[verifier::reject_recursive_types(K)]
#[verifier::reject_recursive_types(V)]
pub struct ExJsonMap<K, V>(serde_json::Map<K, V>);

/// Declares `serde_json::Error`, the failure of the serializer.
#[verifier::external_type_specification]
#[verifier::external_body]
pub struct ExJsonError(serde_json::Error);

/// Mathematical content of a JSON value.
pub enum JsonShape {
    /// The value `null`.
    Null,
    /// `true` or `false`.
    Bool(bool),
    /// A number, by its JSON text.
    Number(Seq<char>),
    /// A string.
    Text(Seq<char>),
    /// An array, by its items in order.
    List(Seq<JsonShape>),
    /// An object, by its members. A name occurs once and the members have
    /// no order.
    Object(Map<Seq<char>, JsonShape>),
}

/// What a `serde_json::Value` holds.
pub uninterp spec fn json_shape(value: serde_json::Value) -> JsonShape;

/// The members that a `serde_json::Map` holds, by name.
pub uninterp spec fn json_members(object: serde_json::Map<String, serde_json::Value>) -> Map<
    Seq<char>,
    JsonShape,
>;

/// An object without members.
pub open spec fn no_members() -> Map<Seq<char>, JsonShape> {
    Map::empty()
}

/// What `serde_json::to_string` gives for a value of the given content: the
/// compact JSON text, or nothing where the serializer gives up. The map of
/// `serde_json` keeps the members of an object sorted by name, so that the
/// outcome does not depend on the order in which they were set.
pub uninterp spec fn json_text(shape: JsonShape) -> Option<Seq<char>>;

/// Makes the JSON string `serde_json::Value::String`.
///
/// Trusted: the value holds the given text.
#[verifier::external_body]
fn text_value(text: String) -> (value: serde_json::Value)
    ensures
        json_shape(value) == JsonShape::Text(text@),
{
    serde_json::Value::String(text)
}

/// Makes the JSON array `serde_json::Value::Array`.
///
/// Trusted: the value holds the given items in their order.
#[verifier::external_body]
fn list_value(items: Vec<serde_json::Value>) -> (value: serde_json::Value)
    ensures
        json_shape(value) == JsonShape::List(items@.map_values(|v: serde_json::Value| json_shape(v))),
{
    serde_json::Value::Array(items)
}

/// Makes an empty map with `serde_json::Map::new`.
///
/// Trusted: the map has no member.
#[verifier::external_body]
fn new_object() -> (object: serde_json::Map<String, serde_json::Value>)
    ensures
        json_members(object) == no_members(),
{
    serde_json::Map::new()
}

/// Sets a member with `serde_json::Map::insert`.
///
/// Trusted: the member of that name now holds the given value, whether or
/// not there was one before, and every other member is as it was.
#[verifier::external_body]
fn set_member(
    object: &mut serde_json::Map<String, serde_json::Value>,
    name: String,
    value: serde_json::Value,
)
    ensures
        json_members(*final(object)) == json_members(*old(object)).insert(name@, json_shape(value)),
{
    object.insert(name, value);
}

/// Makes the JSON object `serde_json::Value::Object`.
///
/// Trusted: the value holds the members of the map.
#[verifier::external_body]
fn object_value(object: serde_json::Map<String, serde_json::Value>) -> (value: serde_json::Value)
    ensures
        json_shape(value) == JsonShape::Object(json_members(object)),
{
    serde_json::Value::Object(object)
}

/// Writes a value out with `serde_json::to_string`.
///
/// Trusted: the outcome depends on the content of the value alone, and is
/// named [`json_text`]: the text that comes back, or nothing where the
/// serializer fails. That a text comes back is not claimed.
#[verifier::external_body]
fn write_value(value: &serde_json::Value) -> (written: Result<String, serde_json::Error>)
    ensures
        written matches Ok(text) ==> json_text(json_shape(*value)) == Some(text@),
        written is Err ==> json_text(json_shape(*value)) is None,
{
    serde_json::to_string(value)
}

/// Why a document could not be written as JSON.
#[derive(Clone, Copy, Debug, PartialEq, Eq, Structural)]
pub enum EmitError {
    /// The serializer gave up.
    Serialize,
}

/// Name of the member that holds the type code.
pub open spec fn type_code_name() -> Seq<char> {
    seq!['v', 'r']
}

/// Name of the member that holds the list of values.
pub open spec fn value_list_name() -> Seq<char> {
    seq!['V', 'a', 'l', 'u', 'e']
}

/// JSON content of one entry: the type code as a string, and the value as
/// the single item of a list.
pub open spec fn element_shape(element: ElementView) -> JsonShape {
    JsonShape::Object(
        no_members().insert(
            type_code_name(),
            JsonShape::Text(element.type_code),
        ).insert(value_list_name(), JsonShape::List(seq![JsonShape::Text(element.value)])),
    )
}

/// Members of the JSON object for a document: one for each entry, named by
/// the text of its tag.
pub open spec fn members_of(entries: Seq<ElementView>) -> Map<Seq<char>, JsonShape>
    decreases entries.len(),
{
    if entries.len() == 0 {
        no_members()
    } else {
        members_of(entries.drop_last()).insert(
            tag_text(entries.last().tag),
            element_shape(entries.last()),
        )
    }
}

/// JSON content of a document.
pub open spec fn document_shape(entries: Seq<ElementView>) -> JsonShape {
    JsonShape::Object(members_of(entries))
}

/// What writing gives for each outcome of the serializer.
pub open spec fn written_or_error(written: Result<String, serde_json::Error>) -> Result<
    String,
    EmitError,
> {
    match written {
        Ok(text) => Ok(text),
        Err(_) => Err(EmitError::Serialize),
    }
}

/// The JSON object of a document has a member for the text of a tag exactly
/// where an entry carries that tag.
pub proof fn law_members_are_named_by_tags(entries: Seq<ElementView>, name: Seq<char>)
    ensures
        members_of(entries).dom().contains(name) <==> exists|i: int|
            0 <= i < entries.len() && tag_text((#[trigger] entries[i]).tag) == name,
    decreases entries.len(),
{
    if entries.len() > 0 {
        let before = entries.drop_last();
        law_members_are_named_by_tags(before, name);
        if members_of(before).dom().contains(name) {
            let i = choose|i: int|
                0 <= i < before.len() && tag_text((#[trigger] before[i]).tag) == name;
            assert(entries[i] == before[i]);
        }
        if exists|i: int| 0 <= i < entries.len() && tag_text((#[trigger] entries[i]).tag) == name {
            let i = choose|i: int|
                0 <= i < entries.len() && tag_text((#[trigger] entries[i]).tag) == name;
            if i < before.len() {
                assert(before[i] == entries[i]);
            }
        }
    }
}

/// In the JSON object of a document, the member named by the tag of an
/// entry holds that entry: its type code, and its value as a list of one.
pub proof fn law_member_holds_entry(entries: Seq<ElementView>, i: int)
    requires
        distinct_tags(entries),
        0 <= i < entries.len(),
    ensures
        members_of(entries).dom().contains(tag_text(entries[i].tag)),
        members_of(entries)[tag_text(entries[i].tag)] == element_shape(entries[i]),
    decreases entries.len(),
{
    let before = entries.drop_last();
    let last = entries.len() - 1;
    if i < last {
        if tag_text(entries[i].tag) == tag_text(entries[last].tag) {
            lemma_tag_text_injective(entries[i].tag, entries[last].tag);
        }
        assert(distinct_tags(before));
        law_member_holds_entry(before, i);
    }
}

/// Builds the JSON value of one entry.
pub fn element_to_json(element: &Element) -> (value: serde_json::Value)
    ensures
        json_shape(value) == element_shape(element@),
{
    proof {
        reveal_strlit("vr");
        reveal_strlit("Value");
    }
    let mut items: Vec<serde_json::Value> = Vec::new();
    items.push(text_value(element.value.clone()));
    let list = list_value(items);
    assert(json_shape(list)->List_0 =~= seq![JsonShape::Text(element.value@)]);
    let mut object = new_object();
    let type_code_member = "vr".to_string();
    let value_member = "Value".to_string();
    assert(type_code_member@ =~= type_code_name());
    assert(value_member@ =~= value_list_name());
    set_member(&mut object, type_code_member, text_value(element.type_code.clone()));
    set_member(&mut object, value_member, list);
    object_value(object)
}

/// Builds the JSON value of a document.
pub fn document_to_json(doc: &Document) -> (value: serde_json::Value)
    ensures
        json_shape(value) == document_shape(doc@),
{
    let mut object = new_object();
    let mut i: usize = 0;
    while i < doc.len()
        invariant
            i <= doc@.len(),
            json_members(object) == members_of(doc@.take(i as int)),
        decreases doc@.len() - i,
    {
        match doc.entry(i) {
            Some(element) => {
                proof {
                    let grown = doc@.take(i + 1);
                    assert(grown.drop_last() =~= doc@.take(i as int));
                }
                set_member(&mut object, element.tag.to_hex(), element_to_json(element));
            },
            None => {},
        }
        i += 1;
    }
    assert(doc@.take(i as int) =~= doc@);
    object_value(object)
}

/// Turns the outcome of the serializer into that of this library.
pub fn finish_writing(written: Result<String, serde_json::Error>) -> (outcome: Result<
    String,
    EmitError,
>)
    ensures
        outcome == written_or_error(written),
{
    match written {
        Ok(text) => Ok(text),
        Err(_) => Err(EmitError::Serialize),
    }
}

/// Writes a document as compact JSON text.
///
/// Returns what the serializer gives for the JSON value of
/// [`document_shape`]: its text, or the error where it gives none.
pub fn to_json_string(doc: &Document) -> (outcome: Result<String, EmitError>)
    ensures
        match outcome {
            Ok(text) => json_text(document_shape(doc@)) == Some(text@),
            Err(e) => json_text(document_shape(doc@)) is None && e == EmitError::Serialize,
        },
{
    let value = document_to_json(doc);
    finish_writing(write_value(&value))
}

} // verus!
