use rfile::shared::SharedCache;
use rfile::store::CacheEntryError;

#[test]
fn shared_insert_deduplicates_identical_content() {
    let cache = SharedCache::new(String::from("CACHE/"));
    let first = cache.insert(String::from("CACHE/one.bin"), Some(b"shared bytes")).unwrap();
    let second = cache.insert(String::from("CACHE/two.bin"), Some(b"shared bytes")).unwrap();
    assert_eq!(first, second);
    assert_eq!(cache.size(), 1);
}

#[test]
fn shared_get_returns_entry_matching_the_digest() {
    let cache = SharedCache::new(String::from("CACHE/"));
    let digest = cache.insert(String::from("CACHE/doc.txt"), Some(b"document")).unwrap();
    let entry = cache.get(digest.clone()).unwrap();
    assert!(entry.is_valid());
    assert_eq!(entry.get_hash_string(), digest);
    assert_eq!(entry.open_path(), "CACHE/doc.txt");
}

#[test]
fn shared_insert_rejects_unreadable_path() {
    let cache = SharedCache::new(String::from("CACHE/"));
    assert!(matches!(
        cache.insert(String::from("CACHE/missing"), None),
        Err(CacheEntryError::InvalidFile)
    ));
    assert_eq!(cache.size(), 0);
}

#[test]
fn shared_lookup_of_unknown_digest_is_not_found() {
    let cache = SharedCache::new(String::from("CACHE/"));
    cache.insert(String::from("CACHE/here.txt"), Some(b"here")).unwrap();
    let absent = "ffffffffffffffffffffffffffffffffffffffffffffffffffffffffffffffff";
    assert!(matches!(cache.get(String::from(absent)), Err(CacheEntryError::NotFound)));
}

#[test]
fn many_inserts_of_one_content_leave_one_entry() {
    let cache = SharedCache::new(String::from("CACHE/"));
    let mut digests: Vec<String> = Vec::new();
    for i in 0..16 {
        let path = format!("CACHE/copy{}.dat", i);
        digests.push(cache.insert(path, Some(b"contended content")).unwrap());
    }
    assert_eq!(cache.size(), 1);
    for d in &digests {
        assert_eq!(d, &digests[0]);
    }
}
