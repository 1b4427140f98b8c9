use redisearch_sql::sql_parser::parser::parse_would_panic;
use redisearch_sql::sql_parser::parser::syntax::parser_safe_text;
use redisearch_sql::sql_parser::translation_would_panic;
use redisearch_sql::sql_parser::{
    clear_cache, get_cache_stats, set_cache_config, translate, translate_cached,
    translate_cached_with_schema, translate_with_schema, CacheConfig, Command, FieldCapabilities,
    QuerySchema, TranslationCache,
};

fn strings(items: &[&str]) -> Vec<String> {
    items.iter().map(|s| s.to_string()).collect()
}

#[test]
fn test_ffi_vector_search() {
    let result =
        translate("SELECT * FROM products ORDER BY embedding <-> '[0.1, 0.2]' LIMIT 5").unwrap();
    assert_eq!(result.command, Command::Search);
    assert_eq!(result.query_string, "*=>[KNN 5 @embedding $BLOB]");
    assert!(result.arguments.contains(&"PARAMS".to_string()));
    assert!(result.arguments.contains(&"BLOB".to_string()));
    assert!(result.arguments.contains(&"[0.1, 0.2]".to_string()));
}

#[test]
fn test_ffi_hybrid_search() {
    let result = translate(
        "SELECT * FROM products \
         WHERE category = 'electronics' \
         ORDER BY embedding <-> '[0.5]' LIMIT 3 \
         OPTION (vector_weight = 0.8, text_weight = 0.2)",
    )
    .unwrap();
    assert_eq!(result.command, Command::Hybrid);
    assert_eq!(result.query_string, "@category:{electronics}");
    assert_eq!(
        result.arguments,
        strings(&[
            "VSIM", "@embedding", "$BLOB", "KNN", "2", "K", "3", "COMBINE", "LINEAR", "4",
            "ALPHA", "0.8", "BETA", "0.2", "LIMIT", "0", "3", "PARAMS", "2", "BLOB", "[0.5]",
        ])
    );
}

#[test]
fn test_ffi_cache_stats() {
    let mut cache = TranslationCache::new();
    clear_cache(&mut cache);
    set_cache_config(&mut cache, CacheConfig { max_entries: 1000 });
    let stats = get_cache_stats(&cache);
    assert_eq!(stats.entries, 0);
    assert_eq!(stats.hits, 0);
    assert_eq!(stats.misses, 0);
}

#[test]
fn test_ffi_cached_translation_with_schema_rejects_text_equality() {
    let mut cache = TranslationCache::new();
    let schema = QuerySchema::new(3).with_field("title", FieldCapabilities::text());
    let err =
        translate_cached_with_schema(&mut cache, "SELECT * FROM idx WHERE title = 'redis'", &schema)
            .unwrap_err();
    let error = err.display_string();
    assert!(error.contains("TEXT field"));
    assert!(error.contains("MATCH"));
    assert_eq!(get_cache_stats(&cache).entries, 0);
}

#[test]
fn simple_query_searches_everything() {
    let result = translate("SELECT * FROM idx").unwrap();
    assert_eq!(result.command, Command::Search);
    assert_eq!(result.index_name, "idx");
    assert_eq!(result.query_string, "*");
}

#[test]
fn range_condition_is_exclusive_lower_bound() {
    let result = translate("SELECT * FROM products WHERE price > 100").unwrap();
    assert_eq!(result.index_name, "products");
    assert_eq!(result.query_string, "@price:[(100 +inf]");
}

#[test]
fn selected_fields_and_limit_become_arguments() {
    let result = translate("SELECT name, price FROM products LIMIT 10").unwrap();
    assert_eq!(
        result.arguments,
        strings(&["RETURN", "2", "name", "price", "LIMIT", "0", "10"])
    );
}

#[test]
fn invalid_sql_is_a_syntax_error() {
    let err = translate("INVALID SQL").unwrap_err();
    assert!(!err.message.is_empty());
    assert!(err.display_string().starts_with("SQL Error: Syntax error: "));
}

#[test]
fn empty_query_is_refused_before_parsing() {
    let err = translate("").unwrap_err();
    assert_eq!(err.message, "Empty query");
}

#[test]
fn vector_search_with_filter() {
    let result = translate(
        "SELECT * FROM products WHERE category = 'electronics' ORDER BY embedding <-> '[0.5]' LIMIT 3",
    )
    .unwrap();
    assert_eq!(result.query_string, "@category:{electronics}=>[KNN 3 @embedding $BLOB]");
}

#[test]
fn vector_search_without_limit_takes_ten_neighbours() {
    let result = translate("SELECT * FROM products ORDER BY embedding <-> '[0.1, 0.2, 0.3]'").unwrap();
    assert_eq!(result.query_string, "*=>[KNN 10 @embedding $BLOB]");
}

#[test]
fn hybrid_search_with_documented_weights() {
    let result = translate(
        "SELECT * FROM products \
         WHERE category = 'electronics' \
         ORDER BY embedding <-> '[0.1, 0.2]' LIMIT 10 \
         OPTION (vector_weight = 0.7, text_weight = 0.3)",
    )
    .unwrap();
    assert_eq!(result.command, Command::Hybrid);
    assert_eq!(result.index_name, "products");
    assert_eq!(result.query_string, "@category:{electronics}");
    assert_eq!(
        result.arguments,
        strings(&[
            "VSIM", "@embedding", "$BLOB", "KNN", "2", "K", "10", "COMBINE", "LINEAR", "4",
            "ALPHA", "0.7", "BETA", "0.3", "LIMIT", "0", "10", "PARAMS", "2", "BLOB",
            "[0.1, 0.2]",
        ])
    );
}

#[test]
fn hybrid_weights_default_to_one_half() {
    let result = translate(
        "SELECT * FROM products WHERE category = 'electronics' \
         ORDER BY embedding <-> '[0.1]' LIMIT 4 OPTION (vector_weight = 0.9)",
    )
    .unwrap();
    assert_eq!(result.command, Command::Hybrid);
    let alpha = result.arguments.iter().position(|a| a == "ALPHA").unwrap();
    assert_eq!(result.arguments[alpha + 1], "0.9");
    assert_eq!(result.arguments[alpha + 3], "0.5");
}

#[test]
fn schema_aware_tag_equality() {
    let schema = QuerySchema::new(1).with_field("category", FieldCapabilities::tag());
    let result =
        translate_with_schema("SELECT * FROM products WHERE category = 'electronics'", &schema)
            .unwrap();
    assert_eq!(result.command, Command::Search);
    assert_eq!(result.index_name, "products");
    assert_eq!(result.query_string, "@category:{electronics}");
}

#[test]
fn group_by_uses_aggregate() {
    let result =
        translate("SELECT category, COUNT(*) AS cnt FROM idx GROUP BY category").unwrap();
    assert_eq!(result.command, Command::Aggregate);
    assert_eq!(result.index_name, "idx");
}

#[test]
fn cached_and_uncached_translations_agree() {
    let mut cache = TranslationCache::new();
    let sql = "SELECT name FROM idx WHERE price BETWEEN 10 AND 20 ORDER BY price DESC LIMIT 5";
    let direct = translate(sql).unwrap();
    let first = translate_cached(&mut cache, sql).unwrap();
    let second = translate_cached(&mut cache, sql).unwrap();
    for t in [&first, &second] {
        assert_eq!(t.command, direct.command);
        assert_eq!(t.index_name, direct.index_name);
        assert_eq!(t.query_string, direct.query_string);
        assert_eq!(t.arguments, direct.arguments);
    }
    let stats = get_cache_stats(&cache);
    assert_eq!((stats.entries, stats.hits, stats.misses), (1, 1, 1));
}

#[test]
fn texts_that_the_parser_panics_on_are_recognised() {
    assert!(!parser_safe_text("GRANT SELECT ON t TO u GRANTED BY 1"));
    assert!(!parser_safe_text("revoke select on t from u granted by 1"));
    assert!(!parser_safe_text("FLUSH RELAY LOGS FOR CHANNEL 1"));
    assert!(parser_safe_text("SELECT channel FROM idx WHERE granted = 1"));
    assert!(parser_safe_text("SELECT * FROM idx WHERE note = 'grantedx grant'"));
    assert!(translation_would_panic("GRANT SELECT ON t TO u GRANTED BY 1"));
    assert!(parse_would_panic("EXPLAIN GRANT SELECT ON t TO u GRANTED BY 1"));
    assert!(!translation_would_panic("SELECT * FROM idx"));
    assert!(translation_would_panic("abcdeé"));
    // A text over the size limit is refused before it could panic.
    assert!(!translation_would_panic(&format!("GRANT x GRANTED BY 1 {}", "x".repeat(70000))));
}
