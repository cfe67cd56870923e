use organum::memory_cache::{
    clear_feature_memory_cache, configured_capacity_bytes, FeatureMemoryCache,
    DEFAULT_MEMORY_CACHE_BYTES,
};

fn key(s: &str) -> Vec<u8> {
    s.as_bytes().to_vec()
}

#[test]
fn get_after_insert_returns_the_value() {
    let mut cache: FeatureMemoryCache<u32> = FeatureMemoryCache::new(100);
    assert_eq!(cache.get(b"a"), None);
    cache.insert(key("a"), 7, 10);
    assert_eq!(cache.get(b"a"), Some(7));
    assert_eq!(cache.len(), 1);
    assert_eq!(cache.used_bytes(), 10);
    cache.insert(key("a"), 8, 30);
    assert_eq!(cache.get(b"a"), Some(8));
    assert_eq!(cache.len(), 1);
    assert_eq!(cache.used_bytes(), 30);
}

#[test]
fn insert_evicts_least_recently_used_first() {
    let mut cache: FeatureMemoryCache<&'static str> = FeatureMemoryCache::new(30);
    cache.insert(key("a"), "A", 10);
    cache.insert(key("b"), "B", 10);
    cache.insert(key("c"), "C", 10);
    // Touch "a" so that "b" becomes the least recently used entry.
    assert_eq!(cache.get(b"a"), Some("A"));
    cache.insert(key("d"), "D", 10);
    assert_eq!(cache.len(), 3);
    assert_eq!(cache.used_bytes(), 30);
    assert_eq!(cache.get(b"b"), None);
    assert_eq!(cache.get(b"a"), Some("A"));
    assert_eq!(cache.get(b"c"), Some("C"));
    assert_eq!(cache.get(b"d"), Some("D"));
}

#[test]
fn oversized_insert_leaves_the_cache_empty() {
    let mut cache: FeatureMemoryCache<u8> = FeatureMemoryCache::new(16);
    cache.insert(key("small"), 1, 8);
    cache.insert(key("huge"), 2, 17);
    assert_eq!(cache.len(), 0);
    assert_eq!(cache.used_bytes(), 0);
    assert_eq!(cache.get(b"huge"), None);
    assert_eq!(cache.get(b"small"), None);
}

#[test]
fn reconfigure_keeps_or_replaces_the_cache() {
    let mut cache: FeatureMemoryCache<u8> = FeatureMemoryCache::new(64);
    cache.insert(key("x"), 1, 8);
    cache.reconfigure(64);
    assert_eq!(cache.get(b"x"), Some(1));
    cache.reconfigure(128);
    assert_eq!(cache.capacity_bytes(), 128);
    assert_eq!(cache.len(), 0);
    cache.insert(key("y"), 2, 8);
    clear_feature_memory_cache(&mut cache);
    assert_eq!(cache.len(), 0);
    assert_eq!(cache.capacity_bytes(), DEFAULT_MEMORY_CACHE_BYTES);
    assert_eq!(DEFAULT_MEMORY_CACHE_BYTES, 256 * 1024 * 1024);
}

#[test]
fn configured_capacity_is_mib_saturating_and_positive() {
    assert_eq!(configured_capacity_bytes(256), 256 * 1024 * 1024);
    assert_eq!(configured_capacity_bytes(1), 1024 * 1024);
    assert_eq!(configured_capacity_bytes(0), 1);
    assert_eq!(configured_capacity_bytes(usize::MAX), usize::MAX);
    assert_eq!(configured_capacity_bytes(usize::MAX / 1024), usize::MAX);
}

#[test]
fn inserted_key_is_held_exactly_when_it_fits() {
    let mut cache: FeatureMemoryCache<u8> = FeatureMemoryCache::new(10);
    cache.insert(key("fits"), 1, 10);
    assert_eq!(cache.get(b"fits"), Some(1));
    cache.insert(key("too big"), 2, 11);
    assert_eq!(cache.get(b"too big"), None);
    assert!(cache.used_bytes() <= cache.capacity_bytes());
}
