//! The store: configured sources and the read records admitted against them,
//! with the codec between the store and its persisted bytes.

use vstd::prelude::*;
use crate::document::{
    field_value, parse_document, print_document, parsed_document, printed_document,
    reads_back, section_entries, documents_agree, entries_agree, Document, DocumentModel, Entry, EntryModel, Field, Section,
};
use crate::entity::{
    belongs_to, default_config, merged, same_novel, ConfigView, ReadRecord, RecordView,
    TotalConfig,
};

verus! {

/// What a store holds: its sources and its records, in order.
pub struct StoreView {
    pub configs: Seq<ConfigView>,
    pub records: Seq<RecordView>,
}

/// The store used when the stored bytes cannot be read.
pub open spec fn default_store() -> StoreView {
    StoreView { configs: seq![default_config()], records: Seq::empty() }
}

// ----- from a document to a store -----

/// The configuration that an entry describes, if it has both members.
pub open spec fn config_of_entry(e: EntryModel) -> Option<ConfigView> {
    match (field_value(e, "name"@), field_value(e, "mainPageUrl"@)) {
        (Some(name), Some(url)) => Some(ConfigView { name, main_page_url: url }),
        _ => None,
    }
}

/// The record that an entry describes, if it has all five members.
pub open spec fn record_of_entry(e: EntryModel) -> Option<RecordView> {
    match (
        field_value(e, "novelId"@),
        field_value(e, "mainPageUrl"@),
        field_value(e, "novelName"@),
        field_value(e, "chapterId"@),
        field_value(e, "chapterName"@),
    ) {
        (Some(a), Some(b), Some(c), Some(d), Some(f)) => Some(
            RecordView {
                novel_id: a,
                main_page_url: b,
                novel_name: c,
                chapter_id: d,
                chapter_name: f,
            },
        ),
        _ => None,
    }
}

/// The configurations of a list of entries, if every entry describes one.
pub open spec fn configs_of(items: Seq<EntryModel>) -> Option<Seq<ConfigView>> {
    if forall|i: int| 0 <= i < items.len() ==> (#[trigger] config_of_entry(items[i])) is Some {
        Some(items.map_values(|e: EntryModel| config_of_entry(e)->Some_0))
    } else {
        None
    }
}

/// The records of a list of entries, if every entry describes one.
pub open spec fn records_of(items: Seq<EntryModel>) -> Option<Seq<RecordView>> {
    if forall|i: int| 0 <= i < items.len() ==> (#[trigger] record_of_entry(items[i])) is Some {
        Some(items.map_values(|e: EntryModel| record_of_entry(e)->Some_0))
    } else {
        None
    }
}

/// The store that a document describes: both members present, every entry readable.
pub open spec fn store_of_document(d: DocumentModel) -> Option<StoreView> {
    match (section_entries(d, "totalConfig"@), section_entries(d, "readRecord"@)) {
        (Some(c), Some(r)) => match (configs_of(c), records_of(r)) {
            (Some(configs), Some(records)) => Some(StoreView { configs, records }),
            _ => None,
        },
        _ => None,
    }
}

/// A store with no configuration gets the default one.
pub open spec fn with_some_config(s: StoreView) -> StoreView {
    if s.configs.len() == 0 {
        StoreView { configs: seq![default_config()], records: s.records }
    } else {
        s
    }
}

/// Whether `bytes` are a readable encoding of a store.
pub open spec fn is_store_encoding(bytes: Seq<u8>) -> bool {
    match parsed_document(bytes) {
        Some(d) => store_of_document(d) is Some,
        None => false,
    }
}

/// The store that loading `bytes` gives.
pub open spec fn load_model(bytes: Seq<u8>) -> StoreView {
    match parsed_document(bytes) {
        Some(d) => match store_of_document(d) {
            Some(s) => with_some_config(s),
            None => default_store(),
        },
        None => default_store(),
    }
}

// ----- from a store to a document -----

pub open spec fn entry_of_config(c: ConfigView) -> EntryModel {
    seq![("name"@, c.name), ("mainPageUrl"@, c.main_page_url)]
}

pub open spec fn entry_of_record(r: RecordView) -> EntryModel {
    seq![
        ("novelId"@, r.novel_id),
        ("mainPageUrl"@, r.main_page_url),
        ("novelName"@, r.novel_name),
        ("chapterId"@, r.chapter_id),
        ("chapterName"@, r.chapter_name),
    ]
}

/// The document written for a store.
pub open spec fn document_of_store(s: StoreView) -> DocumentModel {
    seq![
        ("totalConfig"@, s.configs.map_values(|c: ConfigView| entry_of_config(c))),
        ("readRecord"@, s.records.map_values(|r: RecordView| entry_of_record(r))),
    ]
}

/// The bytes written for a store.
pub open spec fn encode_model(s: StoreView) -> Seq<u8> {
    printed_document(document_of_store(s))
}

// ----- admission -----

/// Some source of `configs` has `record` under it.
pub open spec fn has_source(configs: Seq<ConfigView>, record: RecordView) -> bool {
    exists|i: int| 0 <= i < configs.len() && belongs_to(record, #[trigger] configs[i])
}

/// `j` is the first position of `records` about the same novel as `record`.
pub open spec fn is_first_same_novel(records: Seq<RecordView>, record: RecordView, j: int) -> bool {
    &&& 0 <= j < records.len()
    &&& same_novel(records[j], record)
    &&& forall|k: int| 0 <= k < j ==> !same_novel(#[trigger] records[k], record)
}

/// Some record of `records` is about the same novel as `record`.
pub open spec fn has_same_novel(records: Seq<RecordView>, record: RecordView) -> bool {
    exists|j: int| 0 <= j < records.len() && same_novel(#[trigger] records[j], record)
}

/// The records after admitting `record`: the first record about the same
/// novel takes over its progress; without one, `record` is appended.
pub open spec fn admit_record(records: Seq<RecordView>, record: RecordView) -> Seq<RecordView> {
    if has_same_novel(records, record) {
        let j = choose|j: int| is_first_same_novel(records, record, j);
        records.update(j, merged(records[j], record))
    } else {
        records.push(record)
    }
}

/// No two records are about the same novel.
pub open spec fn distinct_novels(records: Seq<RecordView>) -> bool {
    forall|i: int, j: int|
        0 <= i < records.len() && 0 <= j < records.len() && i != j ==> !same_novel(
            #[trigger] records[i],
            #[trigger] records[j],
        )
}

/// The configured sources and the read-progress records of one reader.
pub struct TotalData {
    total_config: Vec<TotalConfig>,
    read_record: Vec<ReadRecord>,
}

impl View for TotalData {
    type V = StoreView;

    closed spec fn view(&self) -> StoreView {
        StoreView {
            configs: self.total_config@.map_values(|c: TotalConfig| c@),
            records: self.read_record@.map_values(|r: ReadRecord| r@),
        }
    }
}

fn config_from_entry(e: &Entry) -> (r: Option<TotalConfig>)
    ensures
        match r {
            Some(c) => config_of_entry(e@) == Some(c@),
            None => config_of_entry(e@) is None,
        },
{
    let name = e.field(&"name".to_owned());
    let url = e.field(&"mainPageUrl".to_owned());
    match (name, url) {
        (Some(name), Some(main_page_url)) => Some(TotalConfig { name, main_page_url }),
        _ => None,
    }
}

fn record_from_entry(e: &Entry) -> (r: Option<ReadRecord>)
    ensures
        match r {
            Some(c) => record_of_entry(e@) == Some(c@),
            None => record_of_entry(e@) is None,
        },
{
    let novel_id = e.field(&"novelId".to_owned());
    let main_page_url = e.field(&"mainPageUrl".to_owned());
    let novel_name = e.field(&"novelName".to_owned());
    let chapter_id = e.field(&"chapterId".to_owned());
    let chapter_name = e.field(&"chapterName".to_owned());
    match (novel_id, main_page_url, novel_name, chapter_id, chapter_name) {
        (Some(a), Some(b), Some(c), Some(d), Some(f)) => Some(
            ReadRecord {
                novel_id: a,
                main_page_url: b,
                novel_name: c,
                chapter_id: d,
                chapter_name: f,
            },
        ),
        _ => None,
    }
}

fn configs_from_entries(entries: &Vec<Entry>) -> (r: Option<Vec<TotalConfig>>)
    ensures
        match r {
            Some(v) => configs_of(entries@.map_values(|e: Entry| e@)) == Some(
                v@.map_values(|c: TotalConfig| c@),
            ),
            None => configs_of(entries@.map_values(|e: Entry| e@)) is None,
        },
{
    let ghost items = entries@.map_values(|e: Entry| e@);
    let mut out: Vec<TotalConfig> = Vec::new();
    let n = entries.len();
    let mut i: usize = 0;
    while i < n
        invariant
            n == entries.len(),
            items == entries@.map_values(|e: Entry| e@),
            0 <= i <= n,
            out@.len() == i,
            forall|j: int| 0 <= j < i ==> config_of_entry(#[trigger] items[j]) == Some(out@[j]@),
        decreases n - i,
    {
        match config_from_entry(&entries[i]) {
            Some(c) => out.push(c),
            None => {
                assert(config_of_entry(items[i as int]) is None);
                return None;
            },
        }
        i = i + 1;
    }
    assert(items.map_values(|e: EntryModel| config_of_entry(e)->Some_0) =~= out@.map_values(
        |c: TotalConfig| c@,
    ));
    Some(out)
}

fn records_from_entries(entries: &Vec<Entry>) -> (r: Option<Vec<ReadRecord>>)
    ensures
        match r {
            Some(v) => records_of(entries@.map_values(|e: Entry| e@)) == Some(
                v@.map_values(|c: ReadRecord| c@),
            ),
            None => records_of(entries@.map_values(|e: Entry| e@)) is None,
        },
{
    let ghost items = entries@.map_values(|e: Entry| e@);
    let mut out: Vec<ReadRecord> = Vec::new();
    let n = entries.len();
    let mut i: usize = 0;
    while i < n
        invariant
            n == entries.len(),
            items == entries@.map_values(|e: Entry| e@),
            0 <= i <= n,
            out@.len() == i,
            forall|j: int| 0 <= j < i ==> record_of_entry(#[trigger] items[j]) == Some(out@[j]@),
        decreases n - i,
    {
        match record_from_entry(&entries[i]) {
            Some(c) => out.push(c),
            None => {
                assert(record_of_entry(items[i as int]) is None);
                return None;
            },
        }
        i = i + 1;
    }
    assert(items.map_values(|e: EntryModel| record_of_entry(e)->Some_0) =~= out@.map_values(
        |c: ReadRecord| c@,
    ));
    Some(out)
}

fn entry_from_config(c: &TotalConfig) -> (r: Entry)
    ensures
        r@ == entry_of_config(c@),
{
    let mut fields: Vec<Field> = Vec::new();
    fields.push(Field { key: "name".to_owned(), value: c.name.clone() });
    fields.push(Field { key: "mainPageUrl".to_owned(), value: c.main_page_url.clone() });
    let r = Entry { fields };
    assert(r@ =~= entry_of_config(c@));
    r
}

fn entry_from_record(c: &ReadRecord) -> (r: Entry)
    ensures
        r@ == entry_of_record(c@),
{
    let mut fields: Vec<Field> = Vec::new();
    fields.push(Field { key: "novelId".to_owned(), value: c.novel_id.clone() });
    fields.push(Field { key: "mainPageUrl".to_owned(), value: c.main_page_url.clone() });
    fields.push(Field { key: "novelName".to_owned(), value: c.novel_name.clone() });
    fields.push(Field { key: "chapterId".to_owned(), value: c.chapter_id.clone() });
    fields.push(Field { key: "chapterName".to_owned(), value: c.chapter_name.clone() });
    let r = Entry { fields };
    assert(r@ =~= entry_of_record(c@));
    r
}

impl TotalData {
    /// A store holds at least one source.
    pub closed spec fn wf(&self) -> bool {
        self.total_config@.len() > 0
    }

    /// The store that a document describes, if it describes one.
    pub fn from_document(doc: &Document) -> (r: Option<TotalData>)
        ensures
            match r {
                Some(s) => store_of_document(doc@) == Some(s@),
                None => store_of_document(doc@) is None,
            },
    {
        let c = doc.find_section(&"totalConfig".to_owned());
        let r = doc.find_section(&"readRecord".to_owned());
        match (c, r) {
            (Some(c), Some(r)) => {
                let configs = configs_from_entries(&doc.sections[c].entries);
                let records = records_from_entries(&doc.sections[r].entries);
                match (configs, records) {
                    (Some(total_config), Some(read_record)) => Some(
                        TotalData { total_config, read_record },
                    ),
                    _ => None,
                }
            },
            _ => None,
        }
    }

    /// Reads a store from its bytes. Bytes that hold no store give the
    /// default store; a store without sources gets the default source.
    pub fn load(buf: Vec<u8>) -> (r: TotalData)
        ensures
            r@ == load_model(buf@),
            r.wf(),
    {
        let parsed = match parse_document(buf.as_slice()) {
            Some(doc) => TotalData::from_document(&doc),
            None => None,
        };
        match parsed {
            Some(mut data) => {
                if data.total_config.len() == 0 {
                    data.total_config.push(TotalConfig::get_default());
                    assert(data@.configs =~= seq![default_config()]);
                }
                data
            },
            None => {
                let mut total_config: Vec<TotalConfig> = Vec::new();
                total_config.push(TotalConfig::get_default());
                let data = TotalData { total_config, read_record: Vec::new() };
                assert(data@.configs =~= default_store().configs);
                assert(data@.records =~= default_store().records);
                data
            },
        }
    }

    /// Replaces sources and records wholesale with what `buf` holds, read as
    /// `load` reads it.
    pub fn update_data(&mut self, buf: Vec<u8>)
        ensures
            final(self)@ == load_model(buf@),
            final(self).wf(),
    {
        let new_data = Self::load(buf);
        self.read_record = new_data.read_record;
        self.total_config = new_data.total_config;
    }

    /// The document that holds this store.
    pub fn to_document(&self) -> (r: Document)
        ensures
            r@ == document_of_store(self@),
    {
        let mut configs: Vec<Entry> = Vec::new();
        let n = self.total_config.len();
        let mut i: usize = 0;
        while i < n
            invariant
                n == self.total_config.len(),
                0 <= i <= n,
                configs@.len() == i,
                forall|j: int|
                    0 <= j < i ==> (#[trigger] configs@[j])@ == entry_of_config(
                        self.total_config@[j]@,
                    ),
            decreases n - i,
        {
            configs.push(entry_from_config(&self.total_config[i]));
            i = i + 1;
        }
        let mut records: Vec<Entry> = Vec::new();
        let m = self.read_record.len();
        let mut k: usize = 0;
        while k < m
            invariant
                m == self.read_record.len(),
                0 <= k <= m,
                records@.len() == k,
                forall|j: int|
                    0 <= j < k ==> (#[trigger] records@[j])@ == entry_of_record(
                        self.read_record@[j]@,
                    ),
            decreases m - k,
        {
            records.push(entry_from_record(&self.read_record[k]));
            k = k + 1;
        }
        let mut sections: Vec<Section> = Vec::new();
        sections.push(Section { name: "totalConfig".to_owned(), entries: configs });
        sections.push(Section { name: "readRecord".to_owned(), entries: records });
        let r = Document { sections };
        assert(r@[0].1 =~= self@.configs.map_values(|c: ConfigView| entry_of_config(c)));
        assert(r@[1].1 =~= self@.records.map_values(|c: RecordView| entry_of_record(c)));
        assert(r@ =~= document_of_store(self@));
        r
    }

    /// The bytes that hold this store.
    pub fn to_data(&self) -> (r: Vec<u8>)
        ensures
            r@ == encode_model(self@),
    {
        print_document(&self.to_document())
    }

    /// The sources, in stored order.
    pub fn get_all_config(&self) -> (r: Vec<TotalConfig>)
        ensures
            r@.map_values(|c: TotalConfig| c@) == self@.configs,
    {
        let mut out: Vec<TotalConfig> = Vec::new();
        let n = self.total_config.len();
        let mut i: usize = 0;
        while i < n
            invariant
                n == self.total_config.len(),
                0 <= i <= n,
                out@.len() == i,
                forall|j: int| 0 <= j < i ==> (#[trigger] out@[j])@ == self.total_config@[j]@,
            decreases n - i,
        {
            out.push(self.total_config[i].duplicate());
            i = i + 1;
        }
        assert(out@.map_values(|c: TotalConfig| c@) =~= self@.configs);
        out
    }

    /// The records, in stored order.
    pub fn get_all_read_record(&self) -> (r: Vec<ReadRecord>)
        ensures
            r@.map_values(|c: ReadRecord| c@) == self@.records,
    {
        let mut out: Vec<ReadRecord> = Vec::new();
        let n = self.read_record.len();
        let mut i: usize = 0;
        while i < n
            invariant
                n == self.read_record.len(),
                0 <= i <= n,
                out@.len() == i,
                forall|j: int| 0 <= j < i ==> (#[trigger] out@[j])@ == self.read_record@[j]@,
            decreases n - i,
        {
            out.push(self.read_record[i].duplicate());
            i = i + 1;
        }
        assert(out@.map_values(|c: ReadRecord| c@) =~= self@.records);
        out
    }

    /// Whether some source has `record` under it.
    fn has_source_for(&self, record: &ReadRecord) -> (r: bool)
        ensures
            r == has_source(self@.configs, record@),
    {
        let n = self.total_config.len();
        let mut i: usize = 0;
        while i < n
            invariant
                n == self.total_config.len(),
                0 <= i <= n,
                forall|j: int| 0 <= j < i ==> !belongs_to(record@, #[trigger] self@.configs[j]),
            decreases n - i,
        {
            if record.match_url(&self.total_config[i].main_page_url) {
                assert(belongs_to(record@, self@.configs[i as int]));
                return true;
            }
            i = i + 1;
        }
        false
    }

    /// The first position of a record about the same novel as `record`.
    fn position_of_novel(&self, record: &ReadRecord) -> (r: Option<usize>)
        ensures
            match r {
                Some(j) => is_first_same_novel(self@.records, record@, j as int),
                None => !has_same_novel(self@.records, record@),
            },
    {
        let n = self.read_record.len();
        let mut i: usize = 0;
        while i < n
            invariant
                n == self.read_record.len(),
                0 <= i <= n,
                forall|j: int| 0 <= j < i ==> !same_novel(#[trigger] self@.records[j], record@),
            decreases n - i,
        {
            if self.read_record[i].is_same_novel(record) {
                return Some(i);
            }
            i = i + 1;
        }
        None
    }

    /// Admits a candidate record. A candidate that could not be read
    /// (`None`), or whose URL lies under no source, is refused: the result is
    /// false and nothing changes. Otherwise the first record about the same
    /// novel takes over the candidate's progress, or the candidate is
    /// appended when there is none, and the result is true.
    pub fn add_read_record(&mut self, new_read_record: Option<ReadRecord>) -> (r: bool)
        ensures
            final(self).wf() == old(self).wf(),
            match new_read_record {
                None => !r && final(self)@ == old(self)@,
                Some(c) => {
                    &&& r == has_source(old(self)@.configs, c@)
                    &&& r ==> final(self)@ == (StoreView {
                        configs: old(self)@.configs,
                        records: admit_record(old(self)@.records, c@),
                    })
                    &&& !r ==> final(self)@ == old(self)@
                },
            },
            distinct_novels(old(self)@.records) ==> distinct_novels(final(self)@.records),
    {
        let record = match new_read_record {
            None => return false,
            Some(record) => record,
        };
        if !self.has_source_for(&record) {
            return false;
        }
        let ghost old_records = self@.records;
        let ghost c = record@;
        match self.position_of_novel(&record) {
            None => {
                self.read_record.push(record);
                assert(self@.records =~= old_records.push(c));
            },
            Some(j) => {
                let mut item = self.read_record[j].duplicate();
                item.update(record);
                self.read_record.set(j, item);
                proof {
                    assert(has_same_novel(old_records, c));
                    let k = choose|k: int| is_first_same_novel(old_records, c, k);
                    if k < j {
                        assert(same_novel(old_records[k], c));
                    } else if k > j {
                        assert(same_novel(old_records[j as int], c));
                    }
                    assert(self@.records =~= old_records.update(
                        j as int,
                        merged(old_records[j as int], c),
                    ));
                }
            },
        }
        true
    }

    /// Whether some record has exactly this novel id and main page URL.
    pub fn check_exists(&self, novel_id: String, main_page_url: String) -> (r: bool)
        ensures
            r == exists|i: int|
                0 <= i < self@.records.len() && (#[trigger] self@.records[i]).novel_id
                    == novel_id@ && self@.records[i].main_page_url == main_page_url@,
    {
        let n = self.read_record.len();
        let mut i: usize = 0;
        while i < n
            invariant
                n == self.read_record.len(),
                0 <= i <= n,
                forall|j: int|
                    0 <= j < i ==> !((#[trigger] self@.records[j]).novel_id == novel_id@
                        && self@.records[j].main_page_url == main_page_url@),
            decreases n - i,
        {
            if self.read_record[i].main_page_url == main_page_url
                && self.read_record[i].novel_id == novel_id {
                assert(self@.records[i as int].novel_id == novel_id@);
                return true;
            }
            i = i + 1;
        }
        false
    }
}

proof fn lemma_config_entry_reads(c: ConfigView, e: EntryModel)
    requires
        entries_agree(e, entry_of_config(c)),
    ensures
        config_of_entry(e) == Some(c),
{
    reveal_strlit("name");
    reveal_strlit("mainPageUrl");
    let x = entry_of_config(c);
    assert(field_value(e, "name"@) == field_value(x, "name"@));
    assert(field_value(e, "mainPageUrl"@) == field_value(x, "mainPageUrl"@));
    assert(x.drop_first() =~= seq![("mainPageUrl"@, c.main_page_url)]);
    assert("name"@ != "mainPageUrl"@) by {
        assert("name"@.len() != "mainPageUrl"@.len());
    }
    reveal_with_fuel(field_value, 3);
}

proof fn lemma_record_entry_reads(r: RecordView, e: EntryModel)
    requires
        entries_agree(e, entry_of_record(r)),
    ensures
        record_of_entry(e) == Some(r),
{
    reveal_strlit("novelId");
    reveal_strlit("mainPageUrl");
    reveal_strlit("novelName");
    reveal_strlit("chapterId");
    reveal_strlit("chapterName");
    let x = entry_of_record(r);
    assert(field_value(e, "novelId"@) == field_value(x, "novelId"@));
    assert(field_value(e, "mainPageUrl"@) == field_value(x, "mainPageUrl"@));
    assert(field_value(e, "novelName"@) == field_value(x, "novelName"@));
    assert(field_value(e, "chapterId"@) == field_value(x, "chapterId"@));
    assert(field_value(e, "chapterName"@) == field_value(x, "chapterName"@));
    let x1 = x.drop_first();
    let x2 = x1.drop_first();
    let x3 = x2.drop_first();
    let x4 = x3.drop_first();
    assert(x1 =~= x.subrange(1, 5));
    assert(x2 =~= x.subrange(2, 5));
    assert(x3 =~= x.subrange(3, 5));
    assert(x4 =~= x.subrange(4, 5));
    assert(x4.drop_first() =~= Seq::<(Seq<char>, Seq<char>)>::empty());
    assert("novelId"@ != "mainPageUrl"@) by { assert("novelId"@.len() != "mainPageUrl"@.len()); }
    assert("novelId"@ != "novelName"@) by { assert("novelId"@.len() != "novelName"@.len()); }
    assert("novelId"@ != "chapterId"@) by { assert("novelId"@.len() != "chapterId"@.len()); }
    assert("novelId"@ != "chapterName"@) by { assert("novelId"@.len() != "chapterName"@.len()); }
    assert("mainPageUrl"@ != "novelName"@) by { assert("mainPageUrl"@.len() != "novelName"@.len()); }
    assert("mainPageUrl"@ != "chapterId"@) by { assert("mainPageUrl"@.len() != "chapterId"@.len()); }
    assert("mainPageUrl"@ != "chapterName"@) by { assert("mainPageUrl"@[0] != "chapterName"@[0]); }
    assert("novelName"@ != "chapterId"@) by { assert("novelName"@[0] != "chapterId"@[0]); }
    assert("novelName"@ != "chapterName"@) by { assert("novelName"@.len() != "chapterName"@.len()); }
    assert("chapterId"@ != "chapterName"@) by { assert("chapterId"@.len() != "chapterName"@.len()); }
    reveal_with_fuel(field_value, 6);
}

/// Writing a store that has a source and reading the bytes back gives the
/// same store, wherever serde_json reads back what it wrote.
pub proof fn lemma_round_trip(data: &TotalData)
    requires
        data.wf(),
        reads_back(document_of_store(data@)),
    ensures
        load_model(encode_model(data@)) == data@,
{
    let s = data@;
    let doc = document_of_store(s);
    let d = parsed_document(printed_document(doc))->Some_0;
    reveal_strlit("totalConfig");
    reveal_strlit("readRecord");
    assert("totalConfig"@ != "readRecord"@) by {
        assert("totalConfig"@.len() != "readRecord"@.len());
    }
    let cs = s.configs.map_values(|c: ConfigView| entry_of_config(c));
    let rs = s.records.map_values(|r: RecordView| entry_of_record(r));
    assert(doc.drop_first() =~= seq![("readRecord"@, rs)]);
    reveal_with_fuel(section_entries, 3);
    assert(section_entries(doc, "totalConfig"@) == Some(cs));
    assert(section_entries(doc, "readRecord"@) == Some(rs));
    assert(documents_agree(d, doc));
    let x = section_entries(d, "totalConfig"@)->Some_0;
    let y = section_entries(d, "readRecord"@)->Some_0;
    assert forall|i: int| 0 <= i < x.len() implies #[trigger] config_of_entry(x[i]) == Some(
        s.configs[i],
    ) by {
        assert(entries_agree(x[i], cs[i]));
        lemma_config_entry_reads(s.configs[i], x[i]);
    }
    assert forall|i: int| 0 <= i < y.len() implies #[trigger] record_of_entry(y[i]) == Some(
        s.records[i],
    ) by {
        assert(entries_agree(y[i], rs[i]));
        lemma_record_entry_reads(s.records[i], y[i]);
    }
    assert(configs_of(x) == Some(s.configs)) by {
        assert(x.map_values(|e: EntryModel| config_of_entry(e)->Some_0) =~= s.configs);
    }
    assert(records_of(y) == Some(s.records)) by {
        assert(y.map_values(|e: EntryModel| record_of_entry(e)->Some_0) =~= s.records);
    }
    assert(data.total_config@.len() > 0);
}

/// Bytes that are no encoding of a store load as the default store: one
/// source, the default, and no records.
pub proof fn lemma_unreadable_loads_default(bytes: Seq<u8>)
    requires
        !is_store_encoding(bytes),
    ensures
        load_model(bytes) == default_store(),
        load_model(bytes).configs.len() == 1,
        load_model(bytes).configs[0] == default_config(),
        load_model(bytes).records.len() == 0,
{
}

/// Admitting a novel that the records do not hold appends it; admitting the
/// same novel again keeps one record, which carries the later progress.
pub proof fn lemma_insert_then_merge(records: Seq<RecordView>, first: RecordView, second: RecordView)
    requires
        !has_same_novel(records, first),
        same_novel(first, second),
    ensures
        admit_record(records, first) == records.push(first),
        admit_record(admit_record(records, first), second) == records.push(merged(first, second)),
        admit_record(admit_record(records, first), second).len() == records.len() + 1,
{
    let once = records.push(first);
    let j = records.len() as int;
    assert(is_first_same_novel(once, second, j));
    assert(has_same_novel(once, second));
    let k = choose|k: int| is_first_same_novel(once, second, k);
    if k < j {
        assert(same_novel(once[k], second));
        assert(same_novel(records[k], first));
    }
    assert(once.update(j, merged(once[j], second)) =~= records.push(merged(first, second)));
}

} // verus!
