use novel_data::{ReadRecord, TotalConfig, TotalData};

const SITE_A: &str = r#"{"totalConfig":[{"name":"Site A","mainPageUrl":"https://site-a.test/"}],"readRecord":[]}"#;

fn record(id: &str, url: &str, name: &str, chapter_id: &str, chapter_name: &str) -> ReadRecord {
    ReadRecord::new(
        id.to_string(),
        url.to_string(),
        name.to_string(),
        chapter_id.to_string(),
        chapter_name.to_string(),
    )
}

fn assert_default(data: &TotalData) {
    assert_eq!(data.get_all_config(), vec![TotalConfig::get_default()]);
    assert!(data.get_all_read_record().is_empty());
}

#[test]
fn empty_bytes_load_default() {
    assert_default(&TotalData::load(Vec::new()));
}

#[test]
fn truncated_document_loads_default() {
    let bytes = SITE_A.as_bytes()[..SITE_A.len() / 2].to_vec();
    assert_default(&TotalData::load(bytes));
}

#[test]
fn wrong_schema_loads_default() {
    assert_default(&TotalData::load(br#"{"config":[],"records":[]}"#.to_vec()));
    assert_default(&TotalData::load(br#"[1,2,3]"#.to_vec()));
    assert_default(&TotalData::load(br#"{"totalConfig":[{"name":"x"}],"readRecord":[]}"#.to_vec()));
    assert_default(&TotalData::load(b"not json".to_vec()));
}

#[test]
fn empty_config_list_gets_default_source() {
    let bytes = br#"{"totalConfig":[],"readRecord":[{"novelId":"1","mainPageUrl":"u","novelName":"n","chapterId":"c","chapterName":"d"}]}"#;
    let data = TotalData::load(bytes.to_vec());
    assert_eq!(data.get_all_config(), vec![TotalConfig::get_default()]);
    assert_eq!(data.get_all_read_record(), vec![record("1", "u", "n", "c", "d")]);
}

#[test]
fn load_reads_sources_in_order() {
    let bytes = br#"{"readRecord":[],"totalConfig":[{"mainPageUrl":"https://b.test/","name":"B"},{"name":"A","mainPageUrl":"https://a.test/","extra":"x"}]}"#;
    let data = TotalData::load(bytes.to_vec());
    assert_eq!(
        data.get_all_config(),
        vec![
            TotalConfig::new("B".to_string(), "https://b.test/".to_string()),
            TotalConfig::new("A".to_string(), "https://a.test/".to_string()),
        ]
    );
}

#[test]
fn default_store_is_written_exactly() {
    let data = TotalData::load(Vec::new());
    let text = String::from_utf8(data.to_data()).unwrap();
    assert_eq!(
        text,
        r#"{"readRecord":[],"totalConfig":[{"mainPageUrl":"https://www.example.com/","name":"Default"}]}"#
    );
}

#[test]
fn admission_refused_for_unknown_site() {
    let mut data = TotalData::load(SITE_A.as_bytes().to_vec());
    assert!(data.add_read_record(Some(record("1", "https://site-a.test/book/1", "One", "c1", "Ch 1"))));
    let before = data.get_all_read_record();
    let admitted = data.add_read_record(Some(record("7", "https://site-b.test/x", "X", "c", "Ch")));
    assert!(!admitted);
    assert_eq!(data.get_all_read_record(), before);
    assert_eq!(data.get_all_read_record().len(), 1);
}

#[test]
fn unreadable_candidate_is_refused() {
    let mut data = TotalData::load(SITE_A.as_bytes().to_vec());
    assert!(!data.add_read_record(None));
    assert!(data.get_all_read_record().is_empty());
}

#[test]
fn insert_then_merge() {
    let mut data = TotalData::load(SITE_A.as_bytes().to_vec());
    assert!(data.get_all_read_record().is_empty());
    assert!(data.add_read_record(Some(record("42", "https://site-a.test/book/42", "Book", "c1", "Chapter 1"))));
    assert_eq!(data.get_all_read_record().len(), 1);
    assert!(data.add_read_record(Some(record("42", "https://site-a.test/book/42", "Book!", "c9", "Chapter 9"))));
    let records = data.get_all_read_record();
    assert_eq!(records.len(), 1);
    assert_eq!(records[0], record("42", "https://site-a.test/book/42", "Book!", "c9", "Chapter 9"));
}

#[test]
fn exact_match_existence() {
    let mut data = TotalData::load(SITE_A.as_bytes().to_vec());
    assert!(data.add_read_record(Some(record("42", "https://site-a.test/book/42", "Book", "c1", "Chapter 1"))));
    assert!(data.add_read_record(Some(record("42", "https://site-a.test/book/42", "Book", "c2", "Chapter 2"))));
    assert!(data.check_exists("42".to_string(), "https://site-a.test/book/42".to_string()));
    assert!(!data.check_exists("42".to_string(), "https://site-a.test/book/42 ".to_string()));
    assert!(!data.check_exists("99".to_string(), "https://site-a.test/book/42".to_string()));
}

#[test]
fn different_novel_is_appended() {
    let mut data = TotalData::load(SITE_A.as_bytes().to_vec());
    assert!(data.add_read_record(Some(record("1", "https://site-a.test/book/1", "One", "a", "A"))));
    assert!(data.add_read_record(Some(record("2", "https://site-a.test/book/2", "Two", "b", "B"))));
    assert!(data.add_read_record(Some(record("1", "https://site-a.test/book/1b", "One b", "c", "C"))));
    let records = data.get_all_read_record();
    assert_eq!(records.len(), 3);
    assert_eq!(records[0].novel_id, "1");
    assert_eq!(records[1].novel_id, "2");
    assert_eq!(records[2].main_page_url, "https://site-a.test/book/1b");
}

#[test]
fn merge_touches_only_the_first_same_novel() {
    let bytes = br#"{"totalConfig":[{"name":"A","mainPageUrl":"https://site-a.test/"}],"readRecord":[{"novelId":"5","mainPageUrl":"https://site-a.test/5","novelName":"n","chapterId":"c1","chapterName":"one"},{"novelId":"5","mainPageUrl":"https://site-a.test/5","novelName":"n","chapterId":"c1","chapterName":"one"}]}"#;
    let mut data = TotalData::load(bytes.to_vec());
    assert!(data.add_read_record(Some(record("5", "https://site-a.test/5", "n", "c3", "three"))));
    let records = data.get_all_read_record();
    assert_eq!(records.len(), 2);
    assert_eq!(records[0].chapter_id, "c3");
    assert_eq!(records[1].chapter_id, "c1");
}

#[test]
fn replace_is_destructive() {
    let mut data = TotalData::load(SITE_A.as_bytes().to_vec());
    assert!(data.add_read_record(Some(record("42", "https://site-a.test/book/42", "Book", "c1", "Chapter 1"))));
    let replacement = br#"{"totalConfig":[{"name":"Also A","mainPageUrl":"https://site-a.test/book/"}],"readRecord":[]}"#;
    data.update_data(replacement.to_vec());
    assert!(data.get_all_read_record().is_empty());
    assert_eq!(
        data.get_all_config(),
        vec![TotalConfig::new("Also A".to_string(), "https://site-a.test/book/".to_string())]
    );
    assert!(!data.check_exists("42".to_string(), "https://site-a.test/book/42".to_string()));
}

#[test]
fn replace_with_garbage_resets() {
    let mut data = TotalData::load(SITE_A.as_bytes().to_vec());
    assert!(data.add_read_record(Some(record("42", "https://site-a.test/book/42", "Book", "c1", "Chapter 1"))));
    data.update_data(b"{".to_vec());
    assert_default(&data);
}

#[test]
fn round_trip_keeps_the_store() {
    let mut data = TotalData::load(SITE_A.as_bytes().to_vec());
    assert!(data.add_read_record(Some(record("42", "https://site-a.test/book/42", "Book \"quoted\"", "c1", "Chapter 1"))));
    assert!(data.add_read_record(Some(record("7", "https://site-a.test/book/7", "Seven", "c7", "第七章"))));
    let again = TotalData::load(data.to_data());
    assert_eq!(again.get_all_config(), data.get_all_config());
    assert_eq!(again.get_all_read_record(), data.get_all_read_record());
    assert_eq!(again.to_data(), data.to_data());
}

#[test]
fn match_url_is_a_prefix_test() {
    let r = record("1", "https://site-a.test/book/1", "n", "c", "d");
    assert!(r.match_url(&"https://site-a.test/".to_string()));
    assert!(r.match_url(&"".to_string()));
    assert!(!r.match_url(&"https://site-a.test/book/1/more".to_string()));
    assert!(!r.match_url(&"site-a.test".to_string()));
}

#[test]
fn update_keeps_identity() {
    let mut a = record("1", "u", "old", "c1", "one");
    a.update(record("2", "v", "new", "c2", "two"));
    assert_eq!(a, record("1", "u", "new", "c2", "two"));
    assert!(a.is_same_novel(&record("1", "u", "x", "y", "z")));
    assert!(!a.is_same_novel(&record("1", "v", "new", "c2", "two")));
}
