use rfile::entry::FileEntry;
use rfile::entry::FileEntryError;
use rfile::entry::HashState;
use rfile::store::CacheEntryError;
use rfile::store::FileCache;
use rfile::sync::SyncAction;
use rfile::sync::WatchEvent;
use rfile::sync::apply_insert;
use rfile::sync::dispatch_event;

const EMPTY_DIGEST: &str = "af1349b9f5f9a1a6a0404dea36dcc9499bcb25c9adc112b7cc9a93cae41f3262";

fn cache() -> FileCache {
    FileCache::new(String::from("CACHE/"))
}

#[test]
fn empty_file_digest_is_well_known_constant() {
    let mut c = cache();
    let digest = c.add(String::from("CACHE/empty.bin"), Some(&[])).unwrap();
    assert_eq!(digest, EMPTY_DIGEST);
}

#[test]
fn insert_returns_digest_of_content() {
    let mut c = cache();
    let digest = c.add(String::from("CACHE/hello.txt"), Some(b"hello world")).unwrap();
    let expected = blake3::hash(b"hello world").to_hex().to_string();
    assert_eq!(digest, expected);
}

#[test]
fn duplicate_content_from_two_paths_yields_one_entry() {
    let mut c = cache();
    let first = c.add(String::from("CACHE/a.txt"), Some(b"same bytes")).unwrap();
    assert_eq!(c.len(), 1);
    let second = c.add(String::from("CACHE/b.txt"), Some(b"same bytes")).unwrap();
    assert_eq!(first, second);
    assert_eq!(c.len(), 1);
}

#[test]
fn large_content_inserted_twice_keeps_store_size() {
    let content: Vec<u8> = (0..10 * 1024 * 1024u32).map(|i| (i % 251) as u8).collect();
    let mut c = cache();
    let first = c.add(String::from("CACHE/big1.bin"), Some(&content)).unwrap();
    let len_after_first = c.len();
    let second = c.add(String::from("CACHE/big2.bin"), Some(&content)).unwrap();
    assert_eq!(first, second);
    assert_eq!(c.len(), len_after_first);
    assert_eq!(c.len(), 1);
}

#[test]
fn first_writer_wins_keeps_first_path() {
    let mut c = cache();
    let digest = c.add(String::from("CACHE/first.txt"), Some(b"content")).unwrap();
    c.add(String::from("CACHE/second.txt"), Some(b"content")).unwrap();
    let entry = c.get(digest).unwrap();
    assert_eq!(entry.open_path(), "CACHE/first.txt");
}

#[test]
fn round_trip_get_of_inserted_digest() {
    let mut c = cache();
    let digest = c.add(String::from("CACHE/data.bin"), Some(b"round trip")).unwrap();
    let entry = c.get(digest.clone()).unwrap();
    assert!(entry.is_valid());
    assert_eq!(entry.get_hash_string(), digest);
    assert_eq!(entry.get_hash_string(), blake3::hash(b"round trip").to_hex().to_string());
}

#[test]
fn lookup_of_never_inserted_digest_is_not_found() {
    let mut c = cache();
    c.add(String::from("CACHE/present.txt"), Some(b"present")).unwrap();
    let absent = "0123456789abcdef0123456789abcdef0123456789abcdef0123456789abcdef";
    match c.get(String::from(absent)) {
        Err(CacheEntryError::NotFound) => {}
        other => panic!("expected NotFound, got {:?}", other.map(|e| e.open_path())),
    }
}

#[test]
fn lookup_of_malformed_digest_string_is_not_found() {
    let mut c = cache();
    let digest = c.add(String::from("CACHE/x.txt"), Some(b"x")).unwrap();
    assert!(matches!(c.get(String::from("xyz")), Err(CacheEntryError::NotFound)));
    assert!(matches!(c.get(String::new()), Err(CacheEntryError::NotFound)));
    // Digest strings are lowercase; an uppercase rendering names nothing.
    assert!(matches!(c.get(digest.to_uppercase()), Err(CacheEntryError::NotFound)));
}

#[test]
fn invalid_path_is_rejected_and_store_unchanged() {
    let mut c = cache();
    match c.add(String::from("CACHE/unreadable"), None) {
        Err(CacheEntryError::InvalidFile) => {}
        other => panic!("expected InvalidFile, got {:?}", other),
    }
    assert_eq!(c.len(), 0);
}

#[test]
fn one_bad_file_does_not_affect_other_inserts() {
    let mut c = cache();
    let before = c.add(String::from("CACHE/good1.txt"), Some(b"good one")).unwrap();
    assert!(c.add(String::from("CACHE/bad"), None).is_err());
    assert_eq!(c.len(), 1);
    let after = c.add(String::from("CACHE/good2.txt"), Some(b"good two")).unwrap();
    assert_eq!(c.len(), 2);
    assert!(c.get(before).is_ok());
    assert!(c.get(after).is_ok());
}

#[test]
fn repeated_inserts_of_one_content_agree() {
    let mut c = cache();
    let mut digests: Vec<String> = Vec::new();
    for i in 0..20 {
        let path = format!("CACHE/copy{}.bin", i);
        digests.push(c.add(path, Some(b"racy content")).unwrap());
    }
    assert_eq!(c.len(), 1);
    for d in &digests {
        assert_eq!(d, &digests[0]);
    }
}

#[test]
fn entry_states_follow_construction() {
    let e = FileEntry::new(String::from("CACHE/f.txt"));
    assert!(matches!(e.state, HashState::Unhashed));
    assert!(!e.is_valid());

    let mut hashed = FileEntry::new(String::from("CACHE/f.txt"));
    hashed.do_hash(Some(b"bytes"));
    assert!(hashed.is_valid());
    assert_eq!(hashed.get_hash_string(), blake3::hash(b"bytes").to_hex().to_string());
    assert_eq!(hashed.open_path(), "CACHE/f.txt");

    let mut invalid = FileEntry::new(String::from("CACHE/gone"));
    invalid.do_hash(None);
    assert!(!invalid.is_valid());
    assert!(matches!(invalid.state, HashState::Invalid(FileEntryError::FileOpenError)));
}

#[test]
fn dispatch_feeds_creates_and_writes_only() {
    let insert = dispatch_event(WatchEvent::Create(String::from("CACHE/new.txt")));
    assert!(matches!(insert, SyncAction::Insert(p) if p == "CACHE/new.txt"));
    let insert = dispatch_event(WatchEvent::Write(String::from("CACHE/upd.txt")));
    assert!(matches!(insert, SyncAction::Insert(p) if p == "CACHE/upd.txt"));

    assert!(matches!(dispatch_event(WatchEvent::NoticeWrite(String::from("p"))), SyncAction::Ignore));
    assert!(matches!(dispatch_event(WatchEvent::NoticeRemove(String::from("p"))), SyncAction::Ignore));
    assert!(matches!(dispatch_event(WatchEvent::Chmod(String::from("p"))), SyncAction::Ignore));
    assert!(matches!(dispatch_event(WatchEvent::Remove(String::from("p"))), SyncAction::Ignore));
    assert!(matches!(
        dispatch_event(WatchEvent::Rename(String::from("p"), String::from("q"))),
        SyncAction::Ignore
    ));
    assert!(matches!(dispatch_event(WatchEvent::Rescan), SyncAction::Ignore));
    assert!(matches!(dispatch_event(WatchEvent::WatchError), SyncAction::Ignore));
}

#[test]
fn apply_insert_isolates_failure_and_reports_success() {
    let mut c = cache();
    let ok = apply_insert(&mut c, String::from("CACHE/seen.txt"), Some(b"watched"));
    assert_eq!(ok.unwrap(), blake3::hash(b"watched").to_hex().to_string());
    assert_eq!(c.len(), 1);
    let failed = apply_insert(&mut c, String::from("CACHE/ghost"), None);
    assert!(failed.is_none());
    assert_eq!(c.len(), 1);
}

#[test]
fn fresh_cache_is_empty_over_its_root() {
    let c = cache();
    assert_eq!(c.len(), 0);
    assert_eq!(c.cache_dir, "CACHE/");
}
