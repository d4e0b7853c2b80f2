//! The two kinds of entity that the store holds: a configured source site and
//! the read progress of one novel on one site.

use vstd::prelude::*;

verus! {

/// What a source configuration is, as plain sequences of characters.
pub struct ConfigView {
    pub name: Seq<char>,
    pub main_page_url: Seq<char>,
}

/// What a read record is, as plain sequences of characters.
pub struct RecordView {
    pub novel_id: Seq<char>,
    pub main_page_url: Seq<char>,
    pub novel_name: Seq<char>,
    pub chapter_id: Seq<char>,
    pub chapter_name: Seq<char>,
}

/// A configured source site: every page under `main_page_url` belongs to it.
#[derive(Debug, Clone, PartialEq, Eq)]
pub struct TotalConfig {
    pub name: String,
    pub main_page_url: String,
}

/// Reading progress of one novel on one source site. The novel is identified
/// by `novel_id` together with `main_page_url`; the other fields are progress.
#[derive(Debug, Clone, PartialEq, Eq)]
pub struct ReadRecord {
    pub novel_id: String,
    pub main_page_url: String,
    pub novel_name: String,
    pub chapter_id: String,
    pub chapter_name: String,
}

impl View for TotalConfig {
    type V = ConfigView;

    open spec fn view(&self) -> ConfigView {
        ConfigView { name: self.name@, main_page_url: self.main_page_url@ }
    }
}

impl View for ReadRecord {
    type V = RecordView;

    open spec fn view(&self) -> RecordView {
        RecordView {
            novel_id: self.novel_id@,
            main_page_url: self.main_page_url@,
            novel_name: self.novel_name@,
            chapter_id: self.chapter_id@,
            chapter_name: self.chapter_name@,
        }
    }
}

/// The configuration used when none can be recovered from stored data.
pub open spec fn default_config() -> ConfigView {
    ConfigView { name: "Default"@, main_page_url: "https://www.example.com/"@ }
}

/// A record belongs to a source when the source's main page URL is a prefix
/// of the record's URL.
pub open spec fn belongs_to(record: RecordView, config: ConfigView) -> bool {
    config.main_page_url.is_prefix_of(record.main_page_url)
}

/// Two records are about the same novel on the same site.
pub open spec fn same_novel(a: RecordView, b: RecordView) -> bool {
    a.novel_id == b.novel_id && a.main_page_url == b.main_page_url
}

/// `target` after taking over the progress of `source`.
pub open spec fn merged(target: RecordView, source: RecordView) -> RecordView {
    RecordView {
        novel_name: source.novel_name,
        chapter_id: source.chapter_id,
        chapter_name: source.chapter_name,
        ..target
    }
}

/// Relies on str::starts_with: true when `prefix` is a prefix of `s`.
#[verifier::external_body]
fn starts_with(s: &str, prefix: &str) -> (r: bool)
    ensures
        r == prefix@.is_prefix_of(s@),
{
    s.starts_with(prefix)
}

impl TotalConfig {
    pub fn new(name: String, main_page_url: String) -> (r: TotalConfig)
        ensures
            r@ == (ConfigView { name: name@, main_page_url: main_page_url@ }),
    {
        TotalConfig { name, main_page_url }
    }

    /// The well-known default source configuration.
    pub fn get_default() -> (r: TotalConfig)
        ensures
            r@ == default_config(),
    {
        TotalConfig {
            name: "Default".to_owned(),
            main_page_url: "https://www.example.com/".to_owned(),
        }
    }

    /// A copy with the same contents.
    pub fn duplicate(&self) -> (r: TotalConfig)
        ensures
            r@ == self@,
    {
        TotalConfig { name: self.name.clone(), main_page_url: self.main_page_url.clone() }
    }
}

impl ReadRecord {
    pub fn new(
        novel_id: String,
        main_page_url: String,
        novel_name: String,
        chapter_id: String,
        chapter_name: String,
    ) -> (r: ReadRecord)
        ensures
            r@ == (RecordView {
                novel_id: novel_id@,
                main_page_url: main_page_url@,
                novel_name: novel_name@,
                chapter_id: chapter_id@,
                chapter_name: chapter_name@,
            }),
    {
        ReadRecord { novel_id, main_page_url, novel_name, chapter_id, chapter_name }
    }

    /// Whether this record's URL lies under the site whose main page is `url`.
    pub fn match_url(&self, url: &String) -> (r: bool)
        ensures
            r == (url@.is_prefix_of(self@.main_page_url)),
    {
        starts_with(self.main_page_url.as_str(), url.as_str())
    }

    /// Whether both records are about the same novel on the same site.
    pub fn is_same_novel(&self, other: &ReadRecord) -> (r: bool)
        ensures
            r == same_novel(self@, other@),
    {
        self.novel_id == other.novel_id && self.main_page_url == other.main_page_url
    }

    /// Takes over the progress fields of `other`; the identity stays.
    pub fn update(&mut self, other: ReadRecord)
        ensures
            final(self)@ == merged(old(self)@, other@),
    {
        self.novel_name = other.novel_name;
        self.chapter_id = other.chapter_id;
        self.chapter_name = other.chapter_name;
    }

    /// A copy with the same contents.
    pub fn duplicate(&self) -> (r: ReadRecord)
        ensures
            r@ == self@,
    {
        ReadRecord {
            novel_id: self.novel_id.clone(),
            main_page_url: self.main_page_url.clone(),
            novel_name: self.novel_name.clone(),
            chapter_id: self.chapter_id.clone(),
            chapter_name: self.chapter_name.clone(),
        }
    }
}

} // verus!
