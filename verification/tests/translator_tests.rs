use redisearch_sql::sql_parser::ast::{Condition, SelectQuery, Value};
use redisearch_sql::sql_parser::number::Number;
use redisearch_sql::sql_parser::translator::translate;
use redisearch_sql::sql_parser::{Command, FieldCapabilities, QuerySchema};

fn num(text: &str) -> Value {
    Value::Number(Number::parse(text).unwrap())
}

#[test]
fn test_translate_empty_conditions() {
    let query = SelectQuery::new("idx");
    let result = translate(query).unwrap();
    assert_eq!(result.query_string, "*");
}

#[test]
fn test_translate_string_equality() {
    let query = SelectQuery::new("idx").with_condition(Condition::Equals {
        field: "status".to_string(),
        value: Value::String("active".to_string()),
    });
    let result = translate(query).unwrap();
    assert_eq!(result.query_string, "@status:{active}");
}

#[test]
fn test_translate_numeric_equality() {
    let query = SelectQuery::new("idx")
        .with_condition(Condition::Equals { field: "count".to_string(), value: num("42.0") });
    let result = translate(query).unwrap();
    assert_eq!(result.query_string, "@count:[42 42]");
}

#[test]
fn test_translate_range() {
    let query = SelectQuery::new("idx")
        .with_condition(Condition::GreaterThan { field: "price".to_string(), value: num("100.0") });
    let result = translate(query).unwrap();
    assert_eq!(result.query_string, "@price:[(100 +inf]");
}

#[test]
fn test_translate_with_return() {
    let query = SelectQuery::new("products").with_field("name").with_field("price");
    let result = translate(query).unwrap();
    assert!(result.arguments.contains(&"RETURN".to_string()));
    assert!(result.arguments.contains(&"2".to_string()));
}

#[test]
fn translate_search_command_and_index() {
    let result = translate(SelectQuery::new("idx")).unwrap();
    assert_eq!(result.command, Command::Search);
    assert_eq!(result.index_name, "idx");
    assert!(result.arguments.is_empty());
}

#[test]
fn translate_text_equality_is_refused_by_schema() {
    let schema = QuerySchema::new(1).with_field("title", FieldCapabilities::text());
    let query = SelectQuery::new("idx").with_condition(Condition::Equals {
        field: "Title".to_string(),
        value: Value::String("x".to_string()),
    });
    let err = redisearch_sql::sql_parser::translator::translate_with_schema(query, &schema).unwrap_err();
    assert!(err.message.contains("TEXT field"));
    assert!(err.message.contains("MATCH"));
}
