use anylinuxfs_core::CommandCache;
use anylinuxfs_core::ProbeOutput;
use anylinuxfs_core::MAX_CACHE_AGE_MS;

fn probe(text: &str, success: bool) -> ProbeOutput {
    ProbeOutput {
        stdout: text.as_bytes().to_vec(),
        success,
    }
}

#[test]
fn get_respects_freshness_window() {
    let mut cache = CommandCache::new();
    cache.insert("mount".to_string(), probe("table", true), 1000);

    let hit = cache.get("mount", 1500, 1000);
    assert!(hit.is_some());
    assert_eq!(hit.unwrap().stdout, b"table".to_vec());

    // still fresh one tick before the bound
    assert!(cache.get("mount", 1999, 1000).is_some());
    // now - timestamp >= max_age means absent
    assert!(cache.get("mount", 2000, 1000).is_none());
    assert!(cache.get("mount", 5000, 1000).is_none());
    // an unknown key is absent at any age
    assert!(cache.get("pgrep_krun", 1500, 1000).is_none());
}

#[test]
fn expired_entry_is_not_removed_by_get() {
    let mut cache = CommandCache::new();
    cache.insert("mount".to_string(), probe("t", true), 0);
    assert!(cache.get("mount", 10_000, 1000).is_none());
    assert_eq!(cache.len(), 1);
}

#[test]
fn reinsert_replaces_value_and_timestamp() {
    let mut cache = CommandCache::new();
    cache.insert("mount".to_string(), probe("old", true), 0);
    cache.insert("mount".to_string(), probe("new", false), 5000);
    assert_eq!(cache.len(), 1);
    let hit = cache.get("mount", 5100, 1000).unwrap();
    assert_eq!(hit.stdout, b"new".to_vec());
    assert!(!hit.success);
}

#[test]
fn capacity_is_bounded_and_oldest_is_evicted() {
    let mut cache = CommandCache::new();
    for i in 0..55u64 {
        cache.insert(format!("key{}", i), probe("x", true), i * 10);
        assert!(cache.len() <= 50);
    }
    assert_eq!(cache.len(), 50);
    // the five oldest entries were evicted, one per overflowing insert
    for i in 0..5u64 {
        assert!(cache.get(&format!("key{}", i), 1000, u64::MAX).is_none());
    }
    // everything younger survived
    for i in 5..55u64 {
        assert!(cache.get(&format!("key{}", i), 1000, u64::MAX).is_some());
    }
}

#[test]
fn invalidate_prefix_removes_only_matching_keys() {
    let mut cache = CommandCache::new();
    cache.insert("mount".to_string(), probe("a", true), 0);
    cache.insert("mount_table".to_string(), probe("b", true), 0);
    cache.insert("pgrep_krun".to_string(), probe("c", true), 0);
    cache.invalidate_mount_cache();
    assert!(cache.get("mount", 1, 1000).is_none());
    assert!(cache.get("mount_table", 1, 1000).is_none());
    assert!(cache.get("pgrep_krun", 1, 1000).is_some());
}

#[test]
fn invalidate_process_cache_spares_mount_keys() {
    let mut cache = CommandCache::new();
    cache.insert("mount".to_string(), probe("a", true), 0);
    cache.insert("pgrep_krun".to_string(), probe("b", true), 0);
    cache.insert("pgrep_libkrun".to_string(), probe("c", true), 0);
    cache.invalidate_process_cache();
    assert!(cache.get("mount", 1, 1000).is_some());
    assert!(cache.get("pgrep_krun", 1, 1000).is_none());
    assert!(cache.get("pgrep_libkrun", 1, 1000).is_none());
}

#[test]
fn invalidate_all_empties_the_cache() {
    let mut cache = CommandCache::new();
    for i in 0..10u64 {
        cache.insert(format!("key{}", i), probe("x", true), i);
    }
    cache.invalidate_all();
    assert_eq!(cache.len(), 0);
    assert!(cache.get("key3", 100, u64::MAX).is_none());
}

#[test]
fn cleanup_expired_sweeps_by_age() {
    let mut cache = CommandCache::new();
    cache.insert("mount".to_string(), probe("old", true), 0);
    cache.insert("pgrep_krun".to_string(), probe("new", true), 50_000);
    cache.cleanup_expired(61_000, MAX_CACHE_AGE_MS);
    assert_eq!(cache.len(), 1);
    assert!(cache.get("mount", 61_000, u64::MAX).is_none());
    assert!(cache.get("pgrep_krun", 61_000, u64::MAX).is_some());
}
