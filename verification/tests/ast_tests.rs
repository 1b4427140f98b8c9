use redisearch_sql::sql_parser::ast::{
    Condition, Limit, OrderBy, OrderByColumn, SelectQuery, SortDirection, Value,
};
use redisearch_sql::sql_parser::number::Number;

fn num(text: &str) -> Value {
    Value::Number(Number::parse(text).unwrap())
}

#[test]
fn test_condition_field_equals() {
    let cond = Condition::Equals { field: "status".to_string(), value: Value::String("active".to_string()) };
    assert_eq!(cond.field(), "status");
}

#[test]
fn test_condition_field_greater_than() {
    let cond = Condition::GreaterThan { field: "price".to_string(), value: num("100.0") };
    assert_eq!(cond.field(), "price");
}

#[test]
fn test_condition_field_greater_than_or_equal() {
    let cond = Condition::GreaterThanOrEqual { field: "count".to_string(), value: num("5.0") };
    assert_eq!(cond.field(), "count");
}

#[test]
fn test_condition_field_less_than() {
    let cond = Condition::LessThan { field: "age".to_string(), value: num("18.0") };
    assert_eq!(cond.field(), "age");
}

#[test]
fn test_condition_field_less_than_or_equal() {
    let cond = Condition::LessThanOrEqual { field: "rating".to_string(), value: num("5.0") };
    assert_eq!(cond.field(), "rating");
}

#[test]
fn test_condition_field_between() {
    let cond = Condition::Between { field: "price".to_string(), low: num("10.0"), high: num("100.0") };
    assert_eq!(cond.field(), "price");
}

#[test]
fn test_condition_field_in() {
    let cond = Condition::In {
        field: "category".to_string(),
        values: vec![Value::String("a".to_string()), Value::String("b".to_string())],
        negated: false,
    };
    assert_eq!(cond.field(), "category");
}

#[test]
fn test_value_to_rql_string_string() {
    let val = Value::String("hello".to_string());
    assert_eq!(val.to_rql_string(), "hello");
}

#[test]
fn test_value_to_rql_string_integer() {
    assert_eq!(num("42.0").to_rql_string(), "42");
}

#[test]
fn test_value_to_rql_string_float() {
    assert_eq!(num("12.34").to_rql_string(), "12.34");
}

#[test]
fn test_value_to_rql_string_negative_integer() {
    assert_eq!(num("-10.0").to_rql_string(), "-10");
}

#[test]
fn test_value_to_rql_string_negative_float() {
    assert_eq!(num("-2.5").to_rql_string(), "-2.5");
}

#[test]
fn test_value_to_rql_string_zero() {
    assert_eq!(num("0.0").to_rql_string(), "0");
}

#[test]
fn test_value_to_rql_string_large_integer() {
    assert_eq!(num("1000000.0").to_rql_string(), "1000000");
}

#[test]
fn test_sort_direction_display_asc() {
    assert_eq!(SortDirection::Asc.display_string(), "ASC");
}

#[test]
fn test_sort_direction_display_desc() {
    assert_eq!(SortDirection::Desc.display_string(), "DESC");
}

#[test]
fn test_select_query_new() {
    let query = SelectQuery::new("products").with_field("name").with_field("price");
    assert_eq!(query.fields.len(), 2);
    assert_eq!(query.index_name, "products");
    assert!(query.conditions.is_empty());
}

#[test]
fn test_select_query_with_order_and_limit() {
    let mut query = SelectQuery::new("products");
    query.order_by = Some(OrderBy::single("price", SortDirection::Desc));
    query.limit = Some(Limit { count: 10, offset: 5 });
    assert!(query.order_by.is_some());
    assert!(query.limit.is_some());
}

#[test]
fn test_condition_clone() {
    let cond = Condition::Equals { field: "test".to_string(), value: num("1.0") };
    let cloned = cond.clone();
    assert_eq!(cond.field(), cloned.field());
}

#[test]
fn test_value_clone() {
    let val = Value::String("test".to_string());
    let cloned = val.clone();
    assert_eq!(val.to_rql_string(), cloned.to_rql_string());
}

#[test]
fn test_order_by_clone() {
    let ob = OrderBy::single("price", SortDirection::Asc);
    let cloned = ob.clone();
    let first = ob.first().unwrap();
    let cloned_first = cloned.first().unwrap();
    assert_eq!(first.field, cloned_first.field);
    assert_eq!(first.direction, cloned_first.direction);
}

#[test]
fn test_order_by_multiple_columns() {
    let ob = OrderBy {
        columns: vec![
            OrderByColumn { field: "category".to_string(), direction: SortDirection::Asc },
            OrderByColumn { field: "price".to_string(), direction: SortDirection::Desc },
        ],
    };
    assert_eq!(ob.columns.len(), 2);
    assert_eq!(ob.columns[0].field, "category");
    assert_eq!(ob.columns[0].direction, SortDirection::Asc);
    assert_eq!(ob.columns[1].field, "price");
    assert_eq!(ob.columns[1].direction, SortDirection::Desc);
}

#[test]
fn test_condition_not() {
    let inner = Condition::Equals { field: "category".to_string(), value: Value::String("electronics".to_string()) };
    let not_cond = Condition::Not(Box::new(inner));
    assert_eq!(not_cond.field(), "category");
}

#[test]
fn test_limit_clone() {
    let limit = Limit { count: 10, offset: 5 };
    let cloned = limit;
    assert_eq!(limit.count, cloned.count);
    assert_eq!(limit.offset, cloned.offset);
}

#[test]
fn test_select_query_clone() {
    let query = SelectQuery::new("idx")
        .with_field("name")
        .with_condition(Condition::Equals { field: "x".to_string(), value: num("1.0") });
    let cloned = query.clone();
    assert_eq!(query.index_name, cloned.index_name);
}

#[test]
fn rql_number_saturates_integral_values_to_i64() {
    assert_eq!(num("1e30").to_rql_string(), "9223372036854775807");
    assert_eq!(num("-1e30").to_rql_string(), "-9223372036854775808");
}

#[test]
fn rql_number_prints_fractions_without_exponent() {
    assert_eq!(num("1.5e-3").to_rql_string(), "0.0015");
    assert_eq!(num("2.50").to_rql_string(), "2.5");
}

#[test]
fn numbers_beyond_the_range_of_a_double() {
    assert_eq!(num("1e309").to_rql_string(), "inf");
    assert_eq!(Number::parse("-1e400").unwrap().to_display_string(), "-inf");
    assert_eq!(Number::parse("1e-330").unwrap().to_display_string(), "0");
    assert_eq!(num("1e-330").to_rql_string(), "0");
    assert_eq!(num("1e308").to_rql_string(), "9223372036854775807");
}
