use redisearch_sql::sql_parser::ast::{
    AggregateExpr, AggregateFunction, Condition, OrderBy, OrderByColumn, SelectField, SelectQuery,
    SortDirection, Value,
};
use redisearch_sql::sql_parser::error::ErrorCategory;
use redisearch_sql::sql_parser::validation::{
    validate_query, validate_query_string, MAX_IN_VALUES, MAX_NESTING_DEPTH, MAX_ORDER_BY_COLUMNS,
    MAX_QUERY_SIZE, MAX_SELECT_COLUMNS,
};

#[test]
fn test_validate_empty_query() {
    let result = validate_query_string("");
    assert!(result.is_err());
}

#[test]
fn test_validate_valid_query() {
    let result = validate_query_string("SELECT * FROM idx");
    assert!(result.is_ok());
}

#[test]
fn test_validate_empty_index_name() {
    let query = SelectQuery::new("");
    let result = validate_query(&query);
    assert!(result.is_err());
}

#[test]
fn test_validate_valid_index_name() {
    let query = SelectQuery::new("my_index-123");
    let result = validate_query(&query);
    assert!(result.is_ok());
}

#[test]
fn test_validate_index_name_with_colon() {
    let query = SelectQuery::new("idx:all");
    let result = validate_query(&query);
    assert!(result.is_ok());
}

#[test]
fn test_validate_query_too_large() {
    // Create a query larger than MAX_QUERY_SIZE (64KB)
    let large_query = "x".repeat(MAX_QUERY_SIZE + 1);
    let result = validate_query_string(&large_query);
    assert!(result.is_err());
    let err = result.unwrap_err();
    assert!(err.message.contains("exceeds maximum size"));
}

#[test]
fn test_validate_query_at_max_size() {
    // Query exactly at max size should be valid
    let max_query = "x".repeat(MAX_QUERY_SIZE);
    let result = validate_query_string(&max_query);
    assert!(result.is_ok());
}

#[test]
fn test_validate_index_name_with_control_character() {
    let query = SelectQuery::new("my\nindex");
    let result = validate_query(&query);
    assert!(result.is_err());
    let err = result.unwrap_err();
    assert!(err.message.contains("whitespace or control"));
}

#[test]
fn test_validate_index_name_with_space() {
    let query = SelectQuery::new("my index");
    let result = validate_query(&query);
    assert!(result.is_err());
}

#[test]
fn test_validate_select_columns_limit() {
    let mut query = SelectQuery::new("idx");
    query.fields = (0..=MAX_SELECT_COLUMNS)
        .map(|i| SelectField::new(format!("field_{i}")))
        .collect();

    let err = validate_query(&query).unwrap_err();
    assert!(err.message.contains("SELECT clause exceeds maximum"));
}

#[test]
fn test_validate_select_columns_counts_aggregates() {
    let mut query = SelectQuery::new("idx");
    query.fields = (0..50).map(|i| SelectField::new(format!("field_{i}"))).collect();
    query.aggregates = (0..51)
        .map(|_| AggregateExpr { function: AggregateFunction::Count, field: None, alias: None })
        .collect();

    let err = validate_query(&query).unwrap_err();
    assert!(err.message.contains("SELECT clause exceeds maximum"));
}

#[test]
fn test_validate_order_by_columns_limit() {
    let mut query = SelectQuery::new("idx");
    query.order_by = Some(OrderBy {
        columns: (0..=MAX_ORDER_BY_COLUMNS)
            .map(|i| OrderByColumn { field: format!("field_{i}"), direction: SortDirection::Asc })
            .collect(),
    });

    let err = validate_query(&query).unwrap_err();
    assert!(err.message.contains("ORDER BY clause exceeds maximum"));
}

#[test]
fn test_validate_in_clause_limit() {
    let mut query = SelectQuery::new("idx");
    query.conditions.push(Condition::In {
        field: "category".to_string(),
        values: (0..=MAX_IN_VALUES).map(|i| Value::String(format!("value_{i}"))).collect(),
        negated: false,
    });

    let err = validate_query(&query).unwrap_err();
    assert!(err.message.contains("IN clause exceeds maximum"));
}

#[test]
fn test_validate_nesting_depth_limit() {
    let mut condition = Condition::Equals {
        field: "category".to_string(),
        value: Value::String("electronics".to_string()),
    };

    for _ in 0..MAX_NESTING_DEPTH {
        condition = Condition::And(
            Box::new(condition),
            Box::new(Condition::Equals {
                field: "status".to_string(),
                value: Value::String("active".to_string()),
            }),
        );
    }

    let mut query = SelectQuery::new("idx");
    query.having = Some(condition);

    let err = validate_query(&query).unwrap_err();
    assert!(err.message.contains("maximum nesting depth"));
}

#[test]
fn test_validate_query_with_limits_at_threshold() {
    let mut query = SelectQuery::new("idx");
    query.fields = (0..MAX_SELECT_COLUMNS).map(|i| SelectField::new(format!("field_{i}"))).collect();
    query.order_by = Some(OrderBy {
        columns: (0..MAX_ORDER_BY_COLUMNS)
            .map(|i| OrderByColumn { field: format!("field_{i}"), direction: SortDirection::Asc })
            .collect(),
    });
    query.conditions.push(Condition::In {
        field: "category".to_string(),
        values: (0..MAX_IN_VALUES).map(|i| Value::String(format!("value_{i}"))).collect(),
        negated: false,
    });

    assert!(validate_query(&query).is_ok());
}

#[test]
fn query_size_counts_bytes_not_characters() {
    // Each 'é' takes two bytes in UTF-8.
    let accented = "é".repeat(MAX_QUERY_SIZE / 2);
    assert!(validate_query_string(&accented).is_ok());
    let over = format!("{accented}x");
    let err = validate_query_string(&over).unwrap_err();
    assert_eq!(err.category, ErrorCategory::Syntax);
    assert_eq!(err.message, "Query exceeds maximum size of 65536 bytes");
}

#[test]
fn validation_error_messages_are_exact() {
    let err = validate_query_string("").unwrap_err();
    assert_eq!(err.message, "Empty query");
    let err = validate_query(&SelectQuery::new("")).unwrap_err();
    assert_eq!(err.category, ErrorCategory::Translation);
    assert_eq!(err.message, "Index name cannot be empty");
    let mut query = SelectQuery::new("idx");
    query.conditions.push(Condition::Not(Box::new(Condition::In {
        field: "f".to_string(),
        values: (0..=MAX_IN_VALUES).map(|i| Value::String(format!("v{i}"))).collect(),
        negated: true,
    })));
    let err = validate_query(&query).unwrap_err();
    assert_eq!(err.message, "IN clause exceeds maximum of 1000 values");
}
