use snippet_forge::cache::{CacheManager, CachedItem};

fn key(s: &str) -> String {
    s.to_string()
}

#[test]
fn test_cache_insert_and_get() {
    let mut cache: CacheManager<String> = CacheManager::new();
    cache.insert(key("key1"), "value1".to_string(), 0).unwrap();
    let value = cache.get("key1", 0);
    assert_eq!(value, Some("value1".to_string()));
}

#[test]
fn test_cache_ttl() {
    let mut cache: CacheManager<String> = CacheManager::with_ttl(100);
    cache.insert(key("key1"), "value1".to_string(), 1_000).unwrap();
    assert!(cache.contains_key("key1", 1_000));
    let value = cache.get("key1", 1_150);
    assert_eq!(value, None);
}

#[test]
fn test_cache_max_size() {
    let mut cache: CacheManager<String> = CacheManager::with_max_size(3);
    cache.insert(key("key1"), "value1".to_string(), 1).unwrap();
    cache.insert(key("key2"), "value2".to_string(), 2).unwrap();
    cache.insert(key("key3"), "value3".to_string(), 3).unwrap();
    assert_eq!(cache.len(), 3);
    cache.insert(key("key4"), "value4".to_string(), 4).unwrap();
    assert_eq!(cache.len(), 3);
}

#[test]
fn test_cache_remove() {
    let mut cache: CacheManager<String> = CacheManager::new();
    cache.insert(key("key1"), "value1".to_string(), 0).unwrap();
    let removed = cache.remove("key1", 0);
    assert_eq!(removed, Some("value1".to_string()));
    let value = cache.get("key1", 0);
    assert_eq!(value, None);
}

#[test]
fn test_cache_clear() {
    let mut cache: CacheManager<String> = CacheManager::new();
    cache.insert(key("key1"), "value1".to_string(), 0).unwrap();
    cache.insert(key("key2"), "value2".to_string(), 0).unwrap();
    assert_eq!(cache.len(), 2);
    cache.clear();
    assert_eq!(cache.len(), 0);
}

#[test]
fn test_cache_cleanup_expired() {
    let mut cache: CacheManager<String> = CacheManager::with_ttl(100);
    cache.insert(key("key1"), "value1".to_string(), 0).unwrap();
    cache.insert(key("key2"), "value2".to_string(), 0).unwrap();
    let removed = cache.cleanup_expired(150);
    assert_eq!(removed, 2);
    assert_eq!(cache.len(), 0);
}

#[test]
fn test_cache_stats() {
    let mut cache: CacheManager<String> = CacheManager::new();
    cache.insert(key("key1"), "value1".to_string(), 0).unwrap();
    cache.insert(key("key2"), "value2".to_string(), 0).unwrap();
    cache.get("key1", 1);
    cache.get("key1", 2);
    cache.get("key2", 3);
    let stats = cache.get_stats(4);
    assert_eq!(stats.total_items, 2);
    assert_eq!(stats.active_items, 2);
    assert_eq!(stats.total_accesses, 3);
}

#[test]
fn cache_ttl_read_before_and_after_expiry() {
    let mut cache: CacheManager<String> = CacheManager::new();
    cache.insert_with_ttl(key("k"), "v".to_string(), Some(100), 1_000).unwrap();
    assert_eq!(cache.get("k", 1_099), Some("v".to_string()));
    assert_eq!(cache.get("k", 1_100), Some("v".to_string()));
    assert_eq!(cache.get("k", 1_101), None);
    assert_eq!(cache.len(), 0);
}

#[test]
fn cache_sweep_after_ttl_reports_one() {
    let mut cache: CacheManager<String> = CacheManager::new();
    cache.insert_with_ttl(key("k"), "v".to_string(), Some(100), 1_000).unwrap();
    assert_eq!(cache.cleanup_expired(1_050), 0);
    assert_eq!(cache.cleanup_expired(1_200), 1);
    assert!(cache.is_empty());
}

#[test]
fn cache_contains_does_not_count_reads() {
    let mut cache: CacheManager<String> = CacheManager::new();
    cache.insert(key("k"), "v".to_string(), 0).unwrap();
    assert!(cache.contains_key("k", 5));
    assert!(!cache.contains_key("missing", 5));
    assert_eq!(cache.get_stats(5).total_accesses, 0);
}

#[test]
fn cache_evicts_least_recently_read() {
    let mut cache: CacheManager<String> = CacheManager::with_max_size(2);
    cache.insert(key("a"), "1".to_string(), 1).unwrap();
    cache.insert(key("b"), "2".to_string(), 2).unwrap();
    assert_eq!(cache.get("a", 3), Some("1".to_string()));
    cache.insert(key("c"), "3".to_string(), 4).unwrap();
    assert!(cache.contains_key("a", 5));
    assert!(!cache.contains_key("b", 5));
    assert!(cache.contains_key("c", 5));
}

#[test]
fn cache_overwrite_at_capacity_keeps_others() {
    let mut cache: CacheManager<String> = CacheManager::with_max_size(2);
    cache.insert(key("a"), "1".to_string(), 1).unwrap();
    cache.insert(key("b"), "2".to_string(), 2).unwrap();
    cache.insert(key("a"), "9".to_string(), 3).unwrap();
    assert_eq!(cache.len(), 2);
    assert_eq!(cache.get("a", 4), Some("9".to_string()));
    assert_eq!(cache.get("b", 4), Some("2".to_string()));
}

#[test]
fn cache_stats_count_expired_items() {
    let mut cache: CacheManager<String> = CacheManager::with_ttl_and_max_size(10, 5);
    cache.insert(key("a"), "1".to_string(), 0).unwrap();
    cache.insert_with_ttl(key("b"), "2".to_string(), None, 0).unwrap();
    let stats = cache.get_stats(20);
    assert_eq!(stats.total_items, 2);
    assert_eq!(stats.expired_items, 1);
    assert_eq!(stats.active_items, 1);
    assert_eq!(stats.max_size, Some(5));
    assert_eq!(stats.default_ttl_ms, Some(10));
}

#[test]
fn cached_item_lifecycle() {
    let mut item = CachedItem::new(7u32, Some(50), 100);
    assert_eq!(item.expires_at, Some(150));
    assert!(!item.is_expired(150));
    assert!(item.is_expired(151));
    item.touch(120);
    assert_eq!(item.access_count, 1);
    assert_eq!(item.last_accessed, 120);
    let forever = CachedItem::new(1u8, None, 0);
    assert!(!forever.is_expired(u64::MAX));
}

#[test]
fn removing_an_expired_item_gives_nothing() {
    let mut cache: CacheManager<String> = CacheManager::with_ttl(100);
    cache.insert(key("k"), "v".to_string(), 0).unwrap();
    assert_eq!(cache.remove("k", 101), None);
    assert_eq!(cache.len(), 0);
    cache.insert(key("k"), "w".to_string(), 200).unwrap();
    assert_eq!(cache.remove("k", 300), Some("w".to_string()));
}
