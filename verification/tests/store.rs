use wayback_archiver::record::ArchiveRecord;
use wayback_archiver::store::{Entry, LoadError, ResultStore, Snapshot};
use wayback_archiver::time::Timestamp;

const DAY: i64 = 86_400;

fn at(secs: i64) -> Timestamp {
    Timestamp::new(secs, 0)
}

fn ok(secs: i64, archived: &str) -> ArchiveRecord {
    ArchiveRecord::success(at(secs), archived.to_string(), false)
}

fn entry(url: &str, record: ArchiveRecord) -> Entry {
    Entry { url: url.to_string(), record }
}

fn keys(store: &ResultStore) -> Vec<String> {
    store.entries().into_iter().map(|e| e.url).collect()
}

#[test]
fn new_store_is_empty() {
    let store = ResultStore::new();
    assert!(store.is_empty());
    assert_eq!(store.len(), 0);
    assert_eq!(store.lookup("https://a.example"), None);
    assert!(store.entries().is_empty());
}

#[test]
fn upsert_then_lookup() {
    let mut store = ResultStore::new();
    store.upsert("https://a.example".to_string(), ok(100, "https://archive/a"));
    assert_eq!(store.len(), 1);
    assert!(!store.is_empty());
    assert!(store.contains("https://a.example"));
    assert_eq!(store.lookup("https://a.example"), Some(&ok(100, "https://archive/a")));
}

#[test]
fn lookup_is_by_exact_string() {
    let mut store = ResultStore::new();
    store.upsert("https://a.example".to_string(), ok(100, "https://archive/a"));
    assert_eq!(store.lookup("https://a.example/"), None);
    assert_eq!(store.lookup("HTTPS://a.example"), None);
    assert_eq!(store.lookup(" https://a.example"), None);
    assert_eq!(store.lookup(""), None);
    assert!(!store.contains("https://a.example/"));
}

#[test]
fn upsert_overwrites() {
    let mut store = ResultStore::new();
    store.upsert("u".to_string(), ok(100, "first"));
    store.upsert("u".to_string(), ArchiveRecord::failure(at(200)));
    assert_eq!(store.len(), 1);
    assert_eq!(store.lookup("u"), Some(&ArchiveRecord::failure(at(200))));
}

#[test]
fn entries_come_in_key_order() {
    let mut store = ResultStore::new();
    for url in ["m", "b", "z", "a", "ab", "", "B", "\u{00E9}"] {
        store.upsert(url.to_string(), ok(1, url));
    }
    let mut expected: Vec<String> = ["m", "b", "z", "a", "ab", "", "B", "\u{00E9}"].iter().map(|s| s.to_string()).collect();
    expected.sort();
    assert_eq!(keys(&store), expected);
    assert_eq!(store.len(), 8);
    for url in &expected {
        assert_eq!(store.lookup(url), Some(&ok(1, url)));
    }
}

#[test]
fn many_keys_are_all_found() {
    let mut store = ResultStore::new();
    let mut n: i64 = 0;
    while n < 200 {
        let k = (n * 7919) % 200;
        store.upsert(format!("https://example.com/{}", k), ok(k, "x"));
        n += 1;
    }
    assert_eq!(store.len(), 200);
    let mut k: i64 = 0;
    while k < 200 {
        assert_eq!(store.lookup(&format!("https://example.com/{}", k)), Some(&ok(k, "x")));
        k += 1;
    }
    assert_eq!(store.lookup("https://example.com/200"), None);
    let listed = keys(&store);
    let mut sorted = listed.clone();
    sorted.sort();
    assert_eq!(listed, sorted);
}

#[test]
fn is_fresh_needs_a_record() {
    let store = ResultStore::new();
    assert!(!store.is_fresh("u", at(0)));
}

#[test]
fn is_fresh_follows_the_window() {
    let now = 1_700_000_000;
    let mut store = ResultStore::new();
    store.upsert("new".to_string(), ok(now - 179 * DAY, "x"));
    store.upsert("old".to_string(), ok(now - 180 * DAY - 1, "x"));
    store.upsert("edge".to_string(), ok(now - 180 * DAY, "x"));
    store.upsert("failed".to_string(), ArchiveRecord::failure(at(now - DAY)));
    assert!(store.is_fresh("new", at(now)));
    assert!(!store.is_fresh("old", at(now)));
    assert!(!store.is_fresh("edge", at(now)));
    assert!(store.is_fresh("failed", at(now)));
    assert!(!store.is_fresh("other", at(now)));
}

#[test]
fn from_entries_lets_the_later_entry_win() {
    let store = ResultStore::from_entries(vec![
        entry("b", ok(1, "b1")),
        entry("a", ok(2, "a1")),
        entry("b", ok(3, "b2")),
    ]);
    assert_eq!(store.len(), 2);
    assert_eq!(store.lookup("a"), Some(&ok(2, "a1")));
    assert_eq!(store.lookup("b"), Some(&ok(3, "b2")));
    assert_eq!(keys(&store), vec!["a".to_string(), "b".to_string()]);
}

fn reads_back(store: &ResultStore) {
    let listed = store.entries();
    let again = ResultStore::from_entries(listed.clone());
    assert_eq!(again.entries(), listed);
    assert_eq!(again.len(), store.len());
}

#[test]
fn empty_store_reads_back() {
    reads_back(&ResultStore::new());
}

#[test]
fn single_entry_store_reads_back() {
    let mut store = ResultStore::new();
    store.upsert("https://a.example".to_string(), ArchiveRecord::success(Timestamp::new(5, 7), "https://archive/a".to_string(), true));
    reads_back(&store);
}

#[test]
fn multi_entry_store_reads_back() {
    let mut store = ResultStore::new();
    store.upsert("https://b.example".to_string(), ok(10, "https://archive/b"));
    store.upsert("https://a.example".to_string(), ArchiveRecord::failure(at(20)));
    store.upsert("https://c.example".to_string(), ArchiveRecord::success(at(30), "https://archive/c".to_string(), true));
    reads_back(&store);
}

#[test]
fn load_of_missing_snapshot_is_empty() {
    let store = ResultStore::load(Snapshot::Missing).unwrap();
    assert!(store.is_empty());
}

#[test]
fn load_of_entries_gives_them() {
    let store = ResultStore::load(Snapshot::Entries { list: vec![entry("a", ok(1, "x")), entry("b", ok(2, "y"))] }).unwrap();
    assert_eq!(store.len(), 2);
    assert_eq!(store.lookup("a"), Some(&ok(1, "x")));
    assert_eq!(store.lookup("b"), Some(&ok(2, "y")));
}

#[test]
fn load_of_unreadable_snapshot_fails() {
    let r = ResultStore::load(Snapshot::Unreadable { reason: "permission denied".to_string() });
    assert_eq!(r.err(), Some(LoadError::Unreadable { reason: "permission denied".to_string() }));
}

#[test]
fn load_of_malformed_snapshot_fails() {
    let r = ResultStore::load(Snapshot::Malformed { reason: "expected value at line 1".to_string() });
    assert_eq!(r.err(), Some(LoadError::Malformed { reason: "expected value at line 1".to_string() }));
}

#[test]
fn records_tell_success_from_failure() {
    let good = ArchiveRecord::success(at(1), "https://archive/x".to_string(), true);
    assert!(good.is_success());
    assert_eq!(good.archived_url, Some("https://archive/x".to_string()));
    assert!(good.was_existing_snapshot);
    assert_eq!(good.last_archived, at(1));
    let bad = ArchiveRecord::failure(at(2));
    assert!(!bad.is_success());
    assert_eq!(bad.archived_url, None);
    assert!(!bad.was_existing_snapshot);
    assert_eq!(bad.last_archived, at(2));
    assert_eq!(good.duplicate(), good);
    assert_eq!(bad.duplicate(), bad);
}
