use redisearch_sql::query_cache::{CacheKey, CacheStats, CachedResult, QueryCache};

fn key(query_hash: u64) -> CacheKey {
    CacheKey { query_hash, index_revision: 1 }
}

#[test]
fn test_basic_cache_operations() {
    let mut cache = QueryCache::new(2);

    let key1 = CacheKey { query_hash: 1, index_revision: 1 };
    let key2 = CacheKey { query_hash: 2, index_revision: 1 };

    let result1 = CachedResult { data: vec![1, 2, 3], size_bytes: 3 };
    let result2 = CachedResult { data: vec![4, 5, 6], size_bytes: 3 };

    // Insert and retrieve
    cache.insert(key1, result1.clone());
    assert!(cache.get(&key1).is_some());
    assert!(cache.get(&key2).is_none());

    // Check stats
    let stats = cache.stats();
    assert_eq!(stats.lookups, 2);
    assert_eq!(stats.hits, 1);
    assert_eq!(stats.misses, 1);
    assert_eq!(stats.entries, 1);
    assert_eq!(stats.memory_bytes, 3);

    // Insert second entry
    cache.insert(key2, result2);
    assert_eq!(cache.stats().entries, 2);
    assert_eq!(cache.stats().memory_bytes, 6);
}

#[test]
fn test_lru_eviction() {
    let mut cache = QueryCache::new(2);

    let key1 = CacheKey { query_hash: 1, index_revision: 1 };
    let key2 = CacheKey { query_hash: 2, index_revision: 1 };
    let key3 = CacheKey { query_hash: 3, index_revision: 1 };

    let result = CachedResult { data: vec![1], size_bytes: 1 };

    // Fill cache
    cache.insert(key1, result.clone());
    cache.insert(key2, result.clone());

    // Access key1 to make it more recently used
    assert!(cache.get(&key1).is_some());

    // Insert key3, should evict key2 (least recently used)
    cache.insert(key3, result);

    assert!(cache.get(&key1).is_some());
    assert!(cache.get(&key2).is_none());
    assert!(cache.get(&key3).is_some());

    let stats = cache.stats();
    assert_eq!(stats.evictions, 1);
    assert_eq!(stats.entries, 2);
}

#[test]
fn lib_test_cache_clear() {
    let mut cache = QueryCache::new(10);

    let key = CacheKey { query_hash: 1, index_revision: 1 };
    let result = CachedResult { data: vec![1, 2, 3], size_bytes: 3 };

    cache.insert(key, result);
    assert_eq!(cache.stats().entries, 1);

    cache.clear();
    assert_eq!(cache.stats().entries, 0);
    assert_eq!(cache.stats().memory_bytes, 0);
    assert!(cache.get(&key).is_none());
}

#[test]
fn test_cache_resize() {
    let mut cache = QueryCache::new(3);

    for i in 0..3 {
        let key = CacheKey { query_hash: i, index_revision: 1 };
        let result = CachedResult { data: vec![i as u8], size_bytes: 1 };
        cache.insert(key, result);
    }

    assert_eq!(cache.stats().entries, 3);

    // Resize to smaller capacity
    cache.resize(1);
    assert_eq!(cache.stats().entries, 1);
    assert_eq!(cache.stats().evictions, 2);
}

#[test]
fn max_entries_is_what_the_cache_was_made_with() {
    let cache = QueryCache::new(1000);
    assert_eq!(cache.max_entries(), 1000);
    let mut cache = QueryCache::new(4);
    cache.resize(9);
    assert_eq!(cache.max_entries(), 9);
}

#[test]
fn get_returns_what_was_inserted() {
    let mut cache = QueryCache::new(4);
    cache.insert(key(7), CachedResult { data: vec![9, 8, 7], size_bytes: 3 });
    cache.insert(key(8), CachedResult { data: vec![1], size_bytes: 1 });
    let got = cache.get(&key(7)).unwrap();
    assert_eq!(got.data, vec![9, 8, 7]);
    assert_eq!(got.size_bytes, 3);
    let got = cache.get(&key(8)).unwrap();
    assert_eq!(got.data, vec![1]);
    // A different revision is a different key.
    assert!(cache.get(&CacheKey { query_hash: 7, index_revision: 2 }).is_none());
}

#[test]
fn reinserting_a_key_replaces_its_result_and_memory() {
    let mut cache = QueryCache::new(2);
    cache.insert(key(1), CachedResult { data: vec![1, 2, 3], size_bytes: 3 });
    cache.insert(key(1), CachedResult { data: vec![4], size_bytes: 10 });
    let stats = cache.stats();
    assert_eq!(stats.entries, 1);
    assert_eq!(stats.memory_bytes, 10);
    assert_eq!(stats.evictions, 0);
    assert_eq!(cache.get(&key(1)).unwrap().data, vec![4]);
}

#[test]
fn reset_stats_keeps_entries() {
    let mut cache = QueryCache::new(1);
    cache.insert(key(1), CachedResult { data: vec![1], size_bytes: 5 });
    cache.insert(key(2), CachedResult { data: vec![2], size_bytes: 6 });
    assert!(cache.get(&key(1)).is_none());
    assert!(cache.get(&key(2)).is_some());
    let stats = cache.stats();
    assert_eq!((stats.lookups, stats.hits, stats.misses, stats.evictions), (2, 1, 1, 1));
    assert_eq!((stats.entries, stats.memory_bytes), (1, 6));
    cache.reset_stats();
    let stats = cache.stats();
    assert_eq!((stats.lookups, stats.hits, stats.misses, stats.evictions), (0, 0, 0, 0));
    assert_eq!((stats.entries, stats.memory_bytes), (1, 6));
}

#[test]
fn zero_capacity_query_cache_stores_nothing() {
    let mut cache = QueryCache::new(0);
    cache.insert(key(1), CachedResult { data: vec![1], size_bytes: 1 });
    cache.insert(key(2), CachedResult { data: vec![2], size_bytes: 2 });
    let stats = cache.stats();
    assert_eq!((stats.entries, stats.evictions, stats.memory_bytes), (0, 0, 0));
    assert!(cache.get(&key(2)).is_none());
}

#[test]
fn resizing_to_zero_empties_the_cache() {
    let mut cache = QueryCache::new(2);
    cache.insert(key(1), CachedResult { data: vec![1], size_bytes: 1 });
    cache.insert(key(2), CachedResult { data: vec![2], size_bytes: 2 });
    cache.resize(0);
    cache.insert(key(3), CachedResult { data: vec![3], size_bytes: 3 });
    let stats = cache.stats();
    assert_eq!((stats.entries, stats.evictions, stats.memory_bytes), (0, 2, 0));
}

#[test]
fn default_stats_are_zero() {
    let stats = CacheStats::default();
    assert_eq!((stats.lookups, stats.hits, stats.misses, stats.evictions), (0, 0, 0, 0));
    assert_eq!((stats.entries, stats.memory_bytes), (0, 0));
}
