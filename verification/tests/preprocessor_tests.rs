use redisearch_sql::sql_parser::ast::DistanceMetric;
use redisearch_sql::sql_parser::parser::parse;
use redisearch_sql::sql_parser::parser::preprocessor::{
    extract_option_clause, find_keyword_outside_quotes, find_matching_paren, find_option_keyword,
    option_search_splits, quote_nonstandard_from_identifier,
};

#[test]
fn test_parse_simple_select_with_colon_index_name() {
    assert_eq!(quote_nonstandard_from_identifier("SELECT * FROM idx:all"), "SELECT * FROM \"idx:all\"");
    assert_eq!(quote_nonstandard_from_identifier("SELECT * FROM \"idx:all\""), "SELECT * FROM \"idx:all\"");
    assert_eq!(quote_nonstandard_from_identifier("SELECT * FROM plain_idx"), "SELECT * FROM plain_idx");
    assert_eq!(quote_nonstandard_from_identifier("SELECT * FROM   "), "SELECT * FROM   ");

    let sql = "SELECT 'from', \"from\" FROM idx:all";
    let from_idx = find_keyword_outside_quotes(sql, "from").unwrap();
    assert_eq!(&sql[from_idx..from_idx + 4], "FROM");

    let query = parse("SELECT * FROM idx:all").unwrap();
    assert_eq!(query.index_name, "idx:all");
    assert!(query.fields.is_empty());
    assert!(query.conditions.is_empty());
}

#[test]
fn test_parse_option_clause_basic() {
    let query = parse(
        "SELECT * FROM products \
             ORDER BY embedding <-> '[0.1, 0.2, 0.3]' LIMIT 10 \
             OPTION (vector_weight = 0.7, text_weight = 0.3)",
    )
    .unwrap();
    assert!(query.vector_search.is_none());
    assert!(query.hybrid_search.is_some());
    let hs = query.hybrid_search.unwrap();
    assert_eq!(hs.vector.field, "embedding");
    assert_eq!(hs.vector.k, 10);
    assert_eq!(hs.vector_weight.to_display_string(), "0.7");
    assert_eq!(hs.text_weight.to_display_string(), "0.3");
}

#[test]
fn test_parse_option_clause_cosine() {
    let query = parse(
        "SELECT * FROM products \
             ORDER BY embedding <=> '[0.1, 0.2]' LIMIT 5 \
             OPTION (vector_weight = 0.5, text_weight = 0.5)",
    )
    .unwrap();
    assert!(query.hybrid_search.is_some());
    let hs = query.hybrid_search.unwrap();
    assert_eq!(hs.vector.distance_metric, DistanceMetric::Cosine);
    assert_eq!(hs.vector.k, 5);
}

#[test]
fn test_parse_option_clause_with_filter() {
    let (sql, options) = extract_option_clause("SELECT * FROM idx OPTION (, text_weight = 0.3)").unwrap();
    assert_eq!(sql, "SELECT * FROM idx");
    assert!(options.vector_weight.is_none());
    assert_eq!(options.text_weight.unwrap().to_display_string(), "0.3");

    let err = extract_option_clause("SELECT * FROM idx OPTION vector_weight = 0.3").unwrap_err();
    assert!(err.message.contains("followed by parentheses"));

    let err = extract_option_clause("SELECT * FROM idx OPTION (vector_weight)").unwrap_err();
    assert!(err.message.contains("Invalid OPTION format"));

    let err = extract_option_clause("SELECT * FROM idx OPTION (vector_weight = 0.3) trailing").unwrap_err();
    assert!(err.message.contains("must appear at the end"));

    let err = extract_option_clause("SELECT * FROM idx OPTION (vector_weight = nope)").unwrap_err();
    assert!(err.message.contains("must be a number"));

    let err = find_matching_paren("OPTION (vector_weight = 0.3", 7).unwrap_err();
    assert!(err.message.contains("missing closing parenthesis"));
}

#[test]
fn test_parse_option_clause_after_parenthesized_filter() {
    let query = parse(
        "SELECT * FROM products \
             WHERE (category = 'electronics' OR category = 'hardware') \
             ORDER BY embedding <-> '[0.1, 0.2]' LIMIT 10 \
             OPTION (vector_weight = 0.8, text_weight = 0.2)",
    )
    .unwrap();
    assert!(query.hybrid_search.is_some());
    assert_eq!(query.conditions.len(), 1);
}

#[test]
fn test_parse_option_clause_default_weights() {
    let query = parse(
        "SELECT * FROM products \
             ORDER BY embedding <-> '[0.1]' LIMIT 10 \
             OPTION (vector_weight = 0.6)",
    )
    .unwrap();
    let hs = query.hybrid_search.unwrap();
    assert_eq!(hs.vector_weight.to_display_string(), "0.6");
    assert_eq!(hs.text_weight.to_display_string(), "0.5");
}

#[test]
fn test_parse_option_clause_error_no_vector() {
    let result = parse(
        "SELECT * FROM products \
             WHERE category = 'electronics' \
             OPTION (vector_weight = 0.7)",
    );
    assert!(result.is_err());
    let err = result.unwrap_err().display_string();
    assert!(err.contains("vector search"));
}

#[test]
fn test_parse_option_clause_error_invalid_weight() {
    let result = parse(
        "SELECT * FROM products \
             ORDER BY embedding <-> '[0.1]' LIMIT 10 \
             OPTION (vector_weight = 1.5)",
    );
    assert!(result.is_err());
    let err = result.unwrap_err().display_string();
    assert!(err.contains("0.0 and 1.0"));
}

#[test]
fn test_parse_option_clause_error_unknown_key() {
    let result = parse(
        "SELECT * FROM products \
             ORDER BY embedding <-> '[0.1]' LIMIT 10 \
             OPTION (unknown_option = 0.5)",
    );
    assert!(result.is_err());
    let err = result.unwrap_err().display_string();
    assert!(err.contains("Unknown OPTION key"));
}

#[test]
fn option_keyword_needs_whitespace_on_both_sides() {
    assert_eq!(find_option_keyword("SELECT * FROM options"), None);
    assert_eq!(find_option_keyword("SELECT * FROM idx option (a = 1)"), Some(18));
    assert_eq!(find_option_keyword("OPTION"), Some(0));
}

#[test]
fn option_search_that_cuts_a_character_is_detected() {
    assert!(!option_search_splits("SELECT * FROM idx"));
    assert!(option_search_splits("abcdeé"));
    assert!(!option_search_splits("éabcdef"));
}

#[test]
fn option_weights_out_of_range_print_the_number() {
    let err = extract_option_clause("SELECT * FROM idx OPTION (text_weight = 2)").unwrap_err();
    assert_eq!(err.message, "text_weight must be between 0.0 and 1.0, got: 2");
}

#[test]
fn later_option_weight_replaces_earlier_one() {
    let (_, options) = extract_option_clause("SELECT 1 FROM t OPTION (text_weight = 0.1, TEXT_WEIGHT = 0.9)").unwrap();
    assert_eq!(options.text_weight.unwrap().to_display_string(), "0.9");
}

#[test]
fn quoting_stops_at_terminators() {
    assert_eq!(
        quote_nonstandard_from_identifier("SELECT a FROM idx:1, other"),
        "SELECT a FROM \"idx:1\", other"
    );
}

#[test]
fn positions_are_byte_offsets() {
    // 'é' takes two bytes, so FROM starts at byte 3.
    assert_eq!(find_keyword_outside_quotes("é from x", "from"), Some(3));
    let sql = "SELECT 'ü' FROM idx";
    let at = find_keyword_outside_quotes(sql, "from").unwrap();
    assert_eq!(&sql[at..at + 4], "FROM");
    assert_eq!(find_matching_paren("é(a)", 2).unwrap(), 4);
    // An offset inside a character starts at the next character.
    assert_eq!(find_matching_paren("é(a)", 1).unwrap(), 4);
    assert_eq!(find_matching_paren("(é(b)) x", 0).unwrap(), 6);
    let err = find_matching_paren("é(a", 2).unwrap_err();
    assert_eq!(err.message, "OPTION clause: missing closing parenthesis");
    let err = find_matching_paren("ab", 9).unwrap_err();
    assert_eq!(err.message, "OPTION clause: missing closing parenthesis");
    // A two-byte character early enough that no six-byte window cuts it.
    let sql = "é OPTION (text_weight = 0.5)";
    assert!(!option_search_splits(sql));
    assert_eq!(find_option_keyword(sql), Some(3));
}
