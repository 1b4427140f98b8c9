use std::hash::{Hash, Hasher};
use redisearch_sql::sql_parser::cache::translate_cached_with_hash;
use redisearch_sql::sql_parser::{
    clear_cache, get_cache_stats, set_cache_config, translate_cached, translate_cached_with_schema,
    CacheConfig, FieldCapabilities, QuerySchema, TranslationCache,
};

fn clean_cache() -> TranslationCache {
    let mut cache = TranslationCache::new();
    clear_cache(&mut cache);
    set_cache_config(&mut cache, CacheConfig::default());
    cache
}

#[test]
fn test_cache_hit() {
    let mut cache = clean_cache();
    let sql = "SELECT * FROM test_hit_idx WHERE price > 100";

    // First call - cache miss
    let result1 = translate_cached(&mut cache, sql).unwrap();
    let stats1 = get_cache_stats(&cache);
    assert_eq!(stats1.misses, 1);
    assert_eq!(stats1.hits, 0);

    // Second call - cache hit
    let result2 = translate_cached(&mut cache, sql).unwrap();
    let stats2 = get_cache_stats(&cache);
    assert_eq!(stats2.hits, 1);
    assert_eq!(stats2.misses, 1);

    // Results should be equivalent
    assert_eq!(result1.index_name, result2.index_name);
    assert_eq!(result1.query_string, result2.query_string);
}

#[test]
fn test_cache_miss_different_queries() {
    let mut cache = clean_cache();
    translate_cached(&mut cache, "SELECT * FROM miss_idx1").unwrap();
    translate_cached(&mut cache, "SELECT * FROM miss_idx2").unwrap();

    let stats = get_cache_stats(&cache);
    assert_eq!(stats.misses, 2);
    assert_eq!(stats.hits, 0);
    assert_eq!(stats.entries, 2);
}

#[test]
fn test_cache_eviction() {
    let mut cache = clean_cache();
    set_cache_config(&mut cache, CacheConfig { max_entries: 2 });

    translate_cached(&mut cache, "SELECT * FROM evict_idx1").unwrap();
    translate_cached(&mut cache, "SELECT * FROM evict_idx2").unwrap();
    translate_cached(&mut cache, "SELECT * FROM evict_idx3").unwrap(); // Should evict oldest

    let stats = get_cache_stats(&cache);
    assert_eq!(stats.entries, 2);
}

#[test]
fn cache_test_cache_clear() {
    let mut cache = clean_cache();
    translate_cached(&mut cache, "SELECT * FROM clear_idx").unwrap();
    assert!(get_cache_stats(&cache).entries >= 1);

    clear_cache(&mut cache);
    let stats = get_cache_stats(&cache);
    assert_eq!(stats.entries, 0);
    assert_eq!(stats.hits, 0);
    assert_eq!(stats.misses, 0);
}

#[test]
fn test_invalid_sql_not_cached() {
    let mut cache = clean_cache();
    let entries_before = get_cache_stats(&cache).entries;

    let result = translate_cached(&mut cache, "INVALID SQL");
    assert!(result.is_err());

    // Invalid queries should not add entries
    let stats = get_cache_stats(&cache);
    assert_eq!(stats.entries, entries_before);
}

#[test]
fn test_schema_version_in_cache_key() {
    let mut cache = clean_cache();
    let sql = "SELECT * FROM cache_schema_idx WHERE category = 'books'";
    let schema_v1 = QuerySchema::new(1).with_field("category", FieldCapabilities::tag());
    let schema_v2 = QuerySchema::new(2).with_field("category", FieldCapabilities::tag());

    translate_cached_with_schema(&mut cache, sql, &schema_v1).unwrap();
    translate_cached_with_schema(&mut cache, sql, &schema_v1).unwrap();
    translate_cached_with_schema(&mut cache, sql, &schema_v2).unwrap();

    let stats = get_cache_stats(&cache);
    assert_eq!(stats.hits, 1);
    assert_eq!(stats.misses, 2);
    assert_eq!(stats.entries, 2);
}

#[test]
fn default_capacity_is_one_thousand() {
    assert_eq!(CacheConfig::default().max_entries, 1000);
}

#[test]
fn repeated_query_is_answered_from_the_cache() {
    let mut cache = clean_cache();
    let first = translate_cached(&mut cache, "SELECT name FROM idx WHERE price >= 10 LIMIT 5").unwrap();
    let second = translate_cached(&mut cache, "SELECT name FROM idx WHERE price >= 10 LIMIT 5").unwrap();
    assert_eq!(first.command, second.command);
    assert_eq!(first.arguments, second.arguments);
    assert_eq!(second.query_string, "@price:[10 +inf]");
}

#[test]
fn least_recently_used_entry_is_evicted() {
    let mut cache = clean_cache();
    set_cache_config(&mut cache, CacheConfig { max_entries: 2 });
    translate_cached(&mut cache, "SELECT * FROM a").unwrap();
    translate_cached(&mut cache, "SELECT * FROM b").unwrap();
    // Touch `a` so that `b` becomes the least recently used entry.
    translate_cached(&mut cache, "SELECT * FROM a").unwrap();
    translate_cached(&mut cache, "SELECT * FROM c").unwrap();
    let stats = get_cache_stats(&cache);
    assert_eq!((stats.entries, stats.hits, stats.misses), (2, 1, 3));
    translate_cached(&mut cache, "SELECT * FROM a").unwrap();
    assert_eq!(get_cache_stats(&cache).hits, 2);
    translate_cached(&mut cache, "SELECT * FROM b").unwrap();
    assert_eq!(get_cache_stats(&cache).misses, 4);
}

#[test]
fn shrinking_the_capacity_evicts_down_to_it() {
    let mut cache = clean_cache();
    for name in ["a", "b", "c", "d"] {
        translate_cached(&mut cache, &format!("SELECT * FROM {name}")).unwrap();
    }
    assert_eq!(get_cache_stats(&cache).entries, 4);
    set_cache_config(&mut cache, CacheConfig { max_entries: 1 });
    assert_eq!(get_cache_stats(&cache).entries, 1);
    // The most recent entry stays.
    translate_cached(&mut cache, "SELECT * FROM d").unwrap();
    assert_eq!(get_cache_stats(&cache).hits, 1);
}

#[test]
fn zero_capacity_translation_cache_stores_nothing() {
    let mut cache = clean_cache();
    set_cache_config(&mut cache, CacheConfig { max_entries: 0 });
    translate_cached(&mut cache, "SELECT * FROM a").unwrap();
    translate_cached(&mut cache, "SELECT * FROM a").unwrap();
    translate_cached(&mut cache, "SELECT * FROM b").unwrap();
    let stats = get_cache_stats(&cache);
    assert_eq!((stats.entries, stats.hits, stats.misses), (0, 0, 3));
}

#[test]
fn explicit_key_answers_from_the_entry_under_it() {
    let mut cache = clean_cache();
    let schema = QuerySchema::empty();
    let first = translate_cached_with_hash(&mut cache, "SELECT * FROM one", &schema, 7).unwrap();
    assert_eq!(first.index_name, "one");
    // Same key, another text: the stored translation is handed back.
    let second = translate_cached_with_hash(&mut cache, "SELECT * FROM two", &schema, 7).unwrap();
    assert_eq!(second.index_name, "one");
}

#[test]
fn cache_key_is_the_std_hash_of_text_and_version() {
    let sql = "SELECT * FROM keyed_idx";
    let mut hasher = std::collections::hash_map::DefaultHasher::new();
    sql.hash(&mut hasher);
    7u64.hash(&mut hasher);
    let key = hasher.finish();
    let mut cache = clean_cache();
    let schema = QuerySchema::new(7);
    translate_cached_with_hash(&mut cache, sql, &schema, key).unwrap();
    // The same text and version find the entry stored under that key.
    translate_cached_with_schema(&mut cache, sql, &schema).unwrap();
    let stats = get_cache_stats(&cache);
    assert_eq!((stats.entries, stats.hits, stats.misses), (1, 1, 1));
}
