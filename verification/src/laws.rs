//! What holds of every stream and every document.

use crate::decoder::{decoded_entries, decodes_to, elements_of, has_marker, DecodeError};
use crate::document::{
    as_map, distinct_tags, has_tag, index_of_tag, lemma_index_of_tag, lemma_record_distinct, lookup,
    record, record_all, Document,
};
use crate::element::{
    consumed_at, element_at, has_element, length_at, type_code_bytes_at, value_bytes_at,
    value_start_at, ElementView,
};
use crate::text::{ascii_text, is_ascii_bytes, lemma_ascii_decodes_to_itself};
use crate::tag::Tag;
use vstd::prelude::*;

verus! {

/// Whether `rest` holds the whole of its first element: the header in full
/// and every byte of the value.
pub open spec fn starts_with_whole_element(rest: Seq<u8>) -> bool {
    &&& value_start_at(rest) <= rest.len()
    &&& value_start_at(rest) + length_at(rest) <= rest.len()
}

/// Whether `stream` is made of whole elements and nothing else.
pub open spec fn whole_elements(stream: Seq<u8>) -> bool
    decreases stream.len(),
{
    stream.len() == 0 || (starts_with_whole_element(stream) && whole_elements(
        stream.skip(consumed_at(stream)),
    ))
}

/// Where fewer than four bytes follow the marker, and so where nothing
/// follows it, the document is empty.
pub proof fn law_no_elements(bytes: Seq<u8>)
    requires
        has_marker(bytes),
        bytes.len() < 136,
    ensures
        decoded_entries(bytes) == Seq::<ElementView>::empty(),
{
}

/// An element whose type code and value are ASCII is stored as it stands:
/// each byte is a character of the text.
pub proof fn law_ascii_element_is_verbatim(rest: Seq<u8>)
    requires
        is_ascii_bytes(type_code_bytes_at(rest)),
        is_ascii_bytes(value_bytes_at(rest)),
    ensures
        element_at(rest).type_code == ascii_text(type_code_bytes_at(rest)),
        element_at(rest).value == ascii_text(value_bytes_at(rest)),
{
    lemma_ascii_decodes_to_itself(type_code_bytes_at(rest));
    lemma_ascii_decodes_to_itself(value_bytes_at(rest));
}

/// A whole element is decoded the same whatever follows it, and takes up
/// exactly its header and its value.
pub proof fn law_whole_element_stands(rest: Seq<u8>, more: Seq<u8>)
    requires
        starts_with_whole_element(rest),
    ensures
        has_element(rest + more),
        element_at(rest + more) == element_at(rest),
        consumed_at(rest + more) == value_start_at(rest) + length_at(rest),
{
    assert(value_bytes_at(rest + more) =~= value_bytes_at(rest));
}

/// After a whole element the next one starts directly: the elements of the
/// stream are that element and then those of what follows its value.
pub proof fn law_next_element_follows(first: Seq<u8>, more: Seq<u8>)
    requires
        starts_with_whole_element(first),
        first.len() == value_start_at(first) + length_at(first),
    ensures
        elements_of(first + more) == seq![element_at(first)] + elements_of(more),
{
    law_whole_element_stands(first, more);
    assert((first + more).skip(first.len() as int) =~= more);
}

/// Decoding a stream of whole elements followed by anything gives the
/// elements of the first part and then those of the second.
pub proof fn law_elements_of_concat(stream: Seq<u8>, more: Seq<u8>)
    requires
        whole_elements(stream),
    ensures
        elements_of(stream + more) == elements_of(stream) + elements_of(more),
    decreases stream.len(),
{
    if stream.len() > 0 {
        let n = consumed_at(stream);
        law_whole_element_stands(stream, more);
        law_whole_element_stands(stream, Seq::<u8>::empty());
        assert((stream + more).skip(n) =~= stream.skip(n) + more);
        law_elements_of_concat(stream.skip(n), more);
        assert(seq![element_at(stream)] + (elements_of(stream.skip(n)) + elements_of(more))
            =~= (seq![element_at(stream)] + elements_of(stream.skip(n))) + elements_of(more));
    }
}

/// A stream that ends inside the value of an element, after its full
/// header, holds no element there: decoding stops without it.
pub proof fn law_truncated_value_ends_stream(rest: Seq<u8>)
    requires
        value_start_at(rest) <= rest.len(),
        rest.len() < value_start_at(rest) + length_at(rest),
    ensures
        !has_element(rest),
        elements_of(rest) == Seq::<ElementView>::empty(),
{
}

/// A stream of whole elements followed by one whose value is cut short
/// decodes to the whole elements alone.
pub proof fn law_truncated_tail_is_dropped(stream: Seq<u8>, cut: Seq<u8>)
    requires
        whole_elements(stream),
        value_start_at(cut) <= cut.len(),
        cut.len() < value_start_at(cut) + length_at(cut),
    ensures
        elements_of(stream + cut) == elements_of(stream),
{
    law_elements_of_concat(stream, cut);
    law_truncated_value_ends_stream(cut);
}

/// Recording any sequence of elements leaves no tag twice.
pub proof fn law_recorded_tags_distinct(elements: Seq<ElementView>)
    ensures
        distinct_tags(record_all(elements)),
    decreases elements.len(),
{
    if elements.len() > 0 {
        law_recorded_tags_distinct(elements.drop_last());
        lemma_record_distinct(record_all(elements.drop_last()), elements.last());
    }
}

/// After an element is recorded, its tag leads to it, and every other tag
/// leads to what it led to before.
pub proof fn law_record_lookup(entries: Seq<ElementView>, element: ElementView, tag: Tag)
    requires
        distinct_tags(entries),
    ensures
        lookup(record(entries, element), tag) == if tag == element.tag {
            Some(element)
        } else {
            lookup(entries, tag)
        },
{
    let after = record(entries, element);
    lemma_record_distinct(entries, element);
    if has_tag(entries, element.tag) {
        let k = index_of_tag(entries, element.tag);
        if tag == element.tag {
            lemma_index_of_tag(after, tag, k);
        } else if has_tag(entries, tag) {
            let m = index_of_tag(entries, tag);
            lemma_index_of_tag(after, tag, m);
        }
    } else {
        let last = entries.len() as int;
        if tag == element.tag {
            lemma_index_of_tag(after, tag, last);
        } else if has_tag(entries, tag) {
            let m = index_of_tag(entries, tag);
            lemma_index_of_tag(after, tag, m);
        }
    }
}

/// Seen as a mapping, recording is insertion: the element is stored under
/// its tag in place of whatever was there, and nothing else changes.
pub proof fn law_record_is_insert(entries: Seq<ElementView>, element: ElementView)
    requires
        distinct_tags(entries),
    ensures
        as_map(record(entries, element)) == as_map(entries).insert(element.tag, element),
{
    let after = as_map(record(entries, element));
    let inserted = as_map(entries).insert(element.tag, element);
    assert forall|tag: Tag| #[trigger]
        after.dom().contains(tag) <==> inserted.dom().contains(tag) by {
        law_record_lookup(entries, element, tag);
    }
    assert forall|tag: Tag| after.dom().contains(tag) implies #[trigger] after[tag]
        == inserted[tag] by {
        law_record_lookup(entries, element, tag);
    }
}

/// The document has an entry for exactly the tags that occur in the stream.
pub proof fn law_recorded_tags(elements: Seq<ElementView>, tag: Tag)
    ensures
        has_tag(record_all(elements), tag) <==> has_tag(elements, tag),
    decreases elements.len(),
{
    if elements.len() > 0 {
        let before = elements.drop_last();
        law_recorded_tags(before, tag);
        law_recorded_tags_distinct(before);
        law_record_lookup(record_all(before), elements.last(), tag);
        if has_tag(elements, tag) {
            let i = index_of_tag(elements, tag);
            if i < before.len() {
                assert(before[i] == elements[i]);
            }
        }
    }
}

/// Of the elements that share a tag, the last one met is the one that the
/// document holds under that tag.
pub proof fn law_last_element_wins(elements: Seq<ElementView>, i: int)
    requires
        0 <= i < elements.len(),
        forall|j: int| i < j < elements.len() ==> (#[trigger] elements[j]).tag != elements[i].tag,
    ensures
        lookup(record_all(elements), elements[i].tag) == Some(elements[i]),
    decreases elements.len(),
{
    let before = elements.drop_last();
    law_recorded_tags_distinct(before);
    law_record_lookup(record_all(before), elements.last(), elements[i].tag);
    if i < elements.len() - 1 {
        law_last_element_wins(before, i);
    }
}

/// Two elements with one tag leave a single entry, which holds the second.
pub proof fn law_collision_keeps_second(first: ElementView, second: ElementView)
    requires
        first.tag == second.tag,
    ensures
        record_all(seq![first, second]) == seq![second],
{
    let both = seq![first, second];
    assert(both.drop_last() =~= seq![first]);
    assert(seq![first].drop_last() =~= Seq::<ElementView>::empty());
    assert(record_all(Seq::<ElementView>::empty()) =~= Seq::<ElementView>::empty());
    let one = record(Seq::<ElementView>::empty(), first);
    assert(record_all(seq![first]) == one);
    lemma_index_of_tag(one, second.tag, 0);
}

/// Decoding the same bytes twice gives the same outcome: both fail, or both
/// documents hold the same entries in the same order.
pub proof fn law_decoding_is_deterministic(
    bytes: Seq<u8>,
    first: Result<Document, DecodeError>,
    second: Result<Document, DecodeError>,
)
    requires
        decodes_to(bytes, first),
        decodes_to(bytes, second),
    ensures
        first is Ok <==> second is Ok,
        first is Ok ==> first->Ok_0@ == second->Ok_0@,
        first is Err ==> first->Err_0 == second->Err_0,
{
}

} // verus!
