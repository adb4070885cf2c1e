//! The decoded document: the elements of a stream, keyed by tag.
//!
//! A document keeps its entries in the order in which their tags were first
//! met. No tag occurs twice: recording an element whose tag is already there
//! replaces the earlier entry, so the last element met for a tag is the one
//! that stays. Finding a tag walks the entries.

use crate::element::{Element, ElementView};
use crate::tag::Tag;
use vstd::prelude::*;

verus! {

/// Whether some entry carries the tag.
pub open spec fn has_tag(entries: Seq<ElementView>, tag: Tag) -> bool {
    exists|i: int| 0 <= i < entries.len() && (#[trigger] entries[i]).tag == tag
}

/// Index of an entry that carries the tag, where [`has_tag`] holds.
pub open spec fn index_of_tag(entries: Seq<ElementView>, tag: Tag) -> int {
    choose|i: int| 0 <= i < entries.len() && (#[trigger] entries[i]).tag == tag
}

/// Whether no two entries share a tag.
pub open spec fn distinct_tags(entries: Seq<ElementView>) -> bool {
    forall|i: int, j: int|
        0 <= i < j < entries.len() ==> (#[trigger] entries[i]).tag != (#[trigger] entries[j]).tag
}

/// The entry recorded for a tag, if there is one.
pub open spec fn lookup(entries: Seq<ElementView>, tag: Tag) -> Option<ElementView> {
    if has_tag(entries, tag) {
        Some(entries[index_of_tag(entries, tag)])
    } else {
        None
    }
}

/// The entries as a mapping from tag to entry.
pub open spec fn as_map(entries: Seq<ElementView>) -> Map<Tag, ElementView> {
    Map::new(|tag: Tag| has_tag(entries, tag), |tag: Tag| entries[index_of_tag(entries, tag)])
}

/// The entries after one more element is recorded: it takes the place of the
/// entry with its tag, or goes to the end where its tag is new.
pub open spec fn record(entries: Seq<ElementView>, element: ElementView) -> Seq<ElementView> {
    if has_tag(entries, element.tag) {
        entries.update(index_of_tag(entries, element.tag), element)
    } else {
        entries.push(element)
    }
}

/// The entries after a sequence of elements is recorded, first to last.
pub open spec fn record_all(elements: Seq<ElementView>) -> Seq<ElementView>
    decreases elements.len(),
{
    if elements.len() == 0 {
        Seq::empty()
    } else {
        record(record_all(elements.drop_last()), elements.last())
    }
}

/// Among distinct tags, the entry that carries a tag is the one that
/// [`index_of_tag`] names.
pub proof fn lemma_index_of_tag(entries: Seq<ElementView>, tag: Tag, i: int)
    requires
        distinct_tags(entries),
        0 <= i < entries.len(),
        entries[i].tag == tag,
    ensures
        has_tag(entries, tag),
        index_of_tag(entries, tag) == i,
{
    let k = index_of_tag(entries, tag);
    assert(entries[k].tag == entries[i].tag);
}

/// Recording keeps tags distinct.
pub proof fn lemma_record_distinct(entries: Seq<ElementView>, element: ElementView)
    requires
        distinct_tags(entries),
    ensures
        distinct_tags(record(entries, element)),
{
    let after = record(entries, element);
    assert forall|i: int, j: int| 0 <= i < j < after.len() implies (#[trigger] after[i]).tag != (
    #[trigger] after[j]).tag by {
        if has_tag(entries, element.tag) {
            assert(after[i].tag == entries[i].tag && after[j].tag == entries[j].tag);
        } else if j < entries.len() {
            assert(after[i] == entries[i] && after[j] == entries[j]);
        } else {
            assert(after[i] == entries[i] && after[j] == element);
        }
    }
}

/// A tag-keyed collection of decoded elements.
#[derive(Debug, PartialEq, Eq)]
pub struct Document {
    entries: Vec<Element>,
}

impl View for Document {
    type V = Seq<ElementView>;

    closed spec fn view(&self) -> Seq<ElementView> {
        views(self.entries@)
    }
}

impl Document {
    #[verifier::type_invariant]
    spec fn well_formed(self) -> bool {
        distinct_tags(self@)
    }

    /// A document without entries.
    pub fn new() -> (doc: Document)
        ensures
            doc@ == Seq::<ElementView>::empty(),
    {
        Document { entries: Vec::new() }
    }

    /// Number of entries.
    pub fn len(&self) -> (n: usize)
        ensures
            n == self@.len(),
    {
        self.entries.len()
    }

    /// Whether the document has no entry.
    pub fn is_empty(&self) -> (empty: bool)
        ensures
            empty == (self@.len() == 0),
    {
        self.entries.len() == 0
    }

    /// The entry at position `index` in order of first encounter.
    pub fn entry(&self, index: usize) -> (found: Option<&Element>)
        ensures
            match found {
                Some(e) => index < self@.len() && e@ == self@[index as int],
                None => index >= self@.len(),
            },
    {
        if index < self.entries.len() {
            Some(&self.entries[index])
        } else {
            None
        }
    }

    /// The entry recorded for `tag`.
    pub fn get(&self, tag: Tag) -> (found: Option<&Element>)
        ensures
            match found {
                Some(e) => lookup(self@, tag) == Some(e@),
                None => lookup(self@, tag) is None,
            },
    {
        proof {
            use_type_invariant(self);
        }
        let mut i: usize = 0;
        while i < self.entries.len()
            invariant
                i <= self.entries.len(),
                distinct_tags(self@),
                forall|j: int| 0 <= j < i ==> (#[trigger] self@[j]).tag != tag,
            decreases self.entries.len() - i,
        {
            if self.entries[i].tag == tag {
                proof {
                    lemma_index_of_tag(self@, tag, i as int);
                }
                return Some(&self.entries[i]);
            }
            i += 1;
        }
        None
    }

    /// Records an element under its tag. An entry that is already there for
    /// the tag is overwritten.
    pub fn record(&mut self, element: Element)
        ensures
            final(self)@ == record(old(self)@, element@),
    {
        proof {
            use_type_invariant(&*self);
            lemma_record_distinct(self@, element@);
        }
        let mut entries: Vec<Element> = Vec::new();
        core::mem::swap(&mut entries, &mut self.entries);
        record_in(&mut entries, element);
        self.entries = entries;
    }
}

/// The content of a vector of elements.
spec fn views(entries: Seq<Element>) -> Seq<ElementView> {
    entries.map_values(|e: Element| e@)
}

/// Puts the element in the place of the entry with its tag, or at the end.
fn record_in(entries: &mut Vec<Element>, element: Element)
    requires
        distinct_tags(views(old(entries)@)),
    ensures
        views(final(entries)@) == record(views(old(entries)@), element@),
{
    let mut i: usize = 0;
    while i < entries.len()
        invariant
            i <= entries.len(),
            entries@ == old(entries)@,
            distinct_tags(views(entries@)),
            forall|j: int| 0 <= j < i ==> (#[trigger] views(entries@)[j]).tag != element.tag,
        decreases entries.len() - i,
    {
        if entries[i].tag == element.tag {
            proof {
                lemma_index_of_tag(views(entries@), element.tag, i as int);
            }
            entries[i] = element;
            return;
        }
        i += 1;
    }
    entries.push(element);
}

} // verus!
