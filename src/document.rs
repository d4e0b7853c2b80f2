//! The persisted document: a JSON object whose members are arrays of
//! entries, each entry a JSON object with string members.

use std::collections::BTreeMap;
use vstd::prelude::*;

verus! {

/// An entry as its members, `(key, value)` in order.
pub type EntryModel = Seq<(Seq<char>, Seq<char>)>;

/// A named member of the document with its entries.
pub type SectionModel = (Seq<char>, Seq<EntryModel>);

/// A document as its members in order.
pub type DocumentModel = Seq<SectionModel>;

/// One string member of an entry.
pub struct Field {
    pub key: String,
    pub value: String,
}

/// One object of a section.
pub struct Entry {
    pub fields: Vec<Field>,
}

/// A member of the document: a name and an array of entries.
pub struct Section {
    pub name: String,
    pub entries: Vec<Entry>,
}

/// A whole document.
pub struct Document {
    pub sections: Vec<Section>,
}

impl View for Field {
    type V = (Seq<char>, Seq<char>);

    open spec fn view(&self) -> (Seq<char>, Seq<char>) {
        (self.key@, self.value@)
    }
}

impl View for Entry {
    type V = EntryModel;

    open spec fn view(&self) -> EntryModel {
        self.fields@.map_values(|f: Field| f@)
    }
}

impl View for Section {
    type V = SectionModel;

    open spec fn view(&self) -> SectionModel {
        (self.name@, self.entries@.map_values(|e: Entry| e@))
    }
}

impl View for Document {
    type V = DocumentModel;

    open spec fn view(&self) -> DocumentModel {
        self.sections@.map_values(|s: Section| s@)
    }
}

/// The document that serde_json reads from `bytes`, if they hold one of this shape.
pub uninterp spec fn parsed_document(bytes: Seq<u8>) -> Option<DocumentModel>;

/// The JSON text that serde_json writes for a document.
pub uninterp spec fn printed_document(doc: DocumentModel) -> Seq<u8>;

/// The value of the first member of `entry` named `key`.
pub open spec fn field_value(entry: EntryModel, key: Seq<char>) -> Option<Seq<char>>
    decreases entry.len(),
{
    if entry.len() == 0 {
        None
    } else if entry[0].0 == key {
        Some(entry[0].1)
    } else {
        field_value(entry.drop_first(), key)
    }
}

/// The entries of the first member of `doc` named `name`.
pub open spec fn section_entries(doc: DocumentModel, name: Seq<char>) -> Option<Seq<EntryModel>>
    decreases doc.len(),
{
    if doc.len() == 0 {
        None
    } else if doc[0].0 == name {
        Some(doc[0].1)
    } else {
        section_entries(doc.drop_first(), name)
    }
}

/// Two entries give the same value for every key.
pub open spec fn entries_agree(a: EntryModel, b: EntryModel) -> bool {
    forall|key: Seq<char>| #[trigger] field_value(a, key) == field_value(b, key)
}

/// Two documents give, for every name, entries that agree one by one.
pub open spec fn documents_agree(a: DocumentModel, b: DocumentModel) -> bool {
    forall|name: Seq<char>|
        match (#[trigger] section_entries(a, name), section_entries(b, name)) {
            (None, None) => true,
            (Some(x), Some(y)) => x.len() == y.len() && forall|i: int|
                0 <= i < x.len() ==> entries_agree(#[trigger] x[i], y[i]),
            _ => false,
        }
}

/// serde_json reads back the text it wrote for `doc` as a document that
/// agrees with `doc` on every lookup (its members may come in another order).
pub open spec fn reads_back(doc: DocumentModel) -> bool {
    match parsed_document(printed_document(doc)) {
        Some(d) => documents_agree(d, doc),
        None => false,
    }
}

/// Relies on serde_json::from_slice, reading a JSON object whose members are
/// arrays of objects with string members; a BTreeMap hands them out by key.
#[verifier::external_body]
pub(crate) fn parse_document(bytes: &[u8]) -> (r: Option<Document>)
    ensures
        match r {
            Some(d) => parsed_document(bytes@) == Some(d@),
            None => parsed_document(bytes@) is None,
        },
{
    let map: BTreeMap<String, Vec<BTreeMap<String, String>>> = serde_json::from_slice(bytes).ok()?;
    let sections = map.into_iter().map(|(name, items)| Section {
        name,
        entries: items.into_iter().map(|o| Entry {
            fields: o.into_iter().map(|(key, value)| Field { key, value }).collect(),
        }).collect(),
    }).collect();
    Some(Document { sections })
}

/// Relies on serde_json::to_vec, writing the document as a JSON object of
/// arrays of objects with string members.
#[verifier::external_body]
pub(crate) fn print_document(doc: &Document) -> (r: Vec<u8>)
    ensures
        r@ == printed_document(doc@),
{
    let map: BTreeMap<&str, Vec<BTreeMap<&str, &str>>> = doc.sections.iter().map(|s| (
        s.name.as_str(),
        s.entries.iter().map(|e| {
            e.fields.iter().map(|f| (f.key.as_str(), f.value.as_str())).collect()
        }).collect(),
    )).collect();
    serde_json::to_vec(&map).unwrap_or_default()
}

proof fn lemma_field_value_skip(entry: EntryModel, key: Seq<char>, i: int)
    requires
        0 <= i < entry.len(),
        entry[i].0 != key,
    ensures
        field_value(entry.subrange(i, entry.len() as int), key) == field_value(
            entry.subrange(i + 1, entry.len() as int),
            key,
        ),
{
    assert(entry.subrange(i, entry.len() as int).drop_first() =~= entry.subrange(
        i + 1,
        entry.len() as int,
    ));
}

proof fn lemma_section_entries_skip(doc: DocumentModel, name: Seq<char>, i: int)
    requires
        0 <= i < doc.len(),
        doc[i].0 != name,
    ensures
        section_entries(doc.subrange(i, doc.len() as int), name) == section_entries(
            doc.subrange(i + 1, doc.len() as int),
            name,
        ),
{
    assert(doc.subrange(i, doc.len() as int).drop_first() =~= doc.subrange(
        i + 1,
        doc.len() as int,
    ));
}

impl Entry {
    /// The value of the first member named `key`.
    pub fn field(&self, key: &String) -> (r: Option<String>)
        ensures
            match r {
                Some(v) => field_value(self@, key@) == Some(v@),
                None => field_value(self@, key@) is None,
            },
    {
        let n = self.fields.len();
        let mut i: usize = 0;
        assert(self@.subrange(0, n as int) =~= self@);
        while i < n
            invariant
                n == self.fields.len(),
                n == self@.len(),
                0 <= i <= n,
                field_value(self@, key@) == field_value(self@.subrange(i as int, n as int), key@),
            decreases n - i,
        {
            if self.fields[i].key == *key {
                return Some(self.fields[i].value.clone());
            }
            proof {
                lemma_field_value_skip(self@, key@, i as int);
            }
            i = i + 1;
        }
        None
    }
}

impl Document {
    /// The position of the first member named `name`.
    pub fn find_section(&self, name: &String) -> (r: Option<usize>)
        ensures
            match r {
                Some(i) => i < self@.len() && section_entries(self@, name@) == Some(
                    self@[i as int].1,
                ),
                None => section_entries(self@, name@) is None,
            },
    {
        let n = self.sections.len();
        let mut i: usize = 0;
        assert(self@.subrange(0, n as int) =~= self@);
        while i < n
            invariant
                n == self.sections.len(),
                n == self@.len(),
                0 <= i <= n,
                section_entries(self@, name@) == section_entries(
                    self@.subrange(i as int, n as int),
                    name@,
                ),
            decreases n - i,
        {
            if self.sections[i].name == *name {
                return Some(i);
            }
            proof {
                lemma_section_entries_skip(self@, name@, i as int);
            }
            i = i + 1;
        }
        None
    }
}

} // verus!
