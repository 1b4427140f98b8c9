use redisearch_sql::sql_parser::ast::{AggregateFunction, Condition};
use redisearch_sql::sql_parser::parser::aggregates::{
    aggregate_from_parts, extract_having_field, first_value_with_direction, having_field_from_name,
    parse_aggregate_function, parse_having_expression,
};
use redisearch_sql::sql_parser::parser::parse;
use redisearch_sql::sql_parser::parser::syntax::{
    SqlBinaryOp, SqlBinaryOpKind, SqlExpr, SqlExprKind, SqlFunction, SqlFunctionArg,
    SqlFunctionArgs, SqlValue,
};

fn expr(kind: SqlExprKind) -> SqlExpr {
    let debug = format!("{kind:?}");
    SqlExpr { kind, debug }
}

fn ident(name: &str) -> SqlExpr {
    expr(SqlExprKind::Identifier(name.to_string()))
}

fn number(text: &str) -> SqlExpr {
    expr(SqlExprKind::Literal(SqlValue::Number(text.to_string())))
}

fn quoted(text: &str) -> SqlExpr {
    expr(SqlExprKind::Literal(SqlValue::SingleQuoted(text.to_string())))
}

fn call(name: &str, args: Vec<SqlFunctionArg>) -> SqlFunction {
    SqlFunction { name: name.to_string(), args: SqlFunctionArgs::List(args) }
}

fn arg(e: SqlExpr) -> SqlFunctionArg {
    SqlFunctionArg::Expr(e)
}

fn binary(left: SqlExpr, kind: SqlBinaryOpKind, right: SqlExpr) -> SqlExpr {
    let debug = format!("{kind:?}");
    expr(SqlExprKind::BinaryOp {
        left: Box::new(left),
        op: SqlBinaryOp { kind, debug },
        right: Box::new(right),
    })
}

fn count_star() -> SqlExpr {
    expr(SqlExprKind::Function(call("COUNT", vec![SqlFunctionArg::Wildcard])))
}

fn aggregate_of(name: &str, field: &str) -> SqlExpr {
    expr(SqlExprKind::Function(call(name, vec![arg(ident(field))])))
}

#[test]
fn test_parse_count_star() {
    let query = parse("SELECT COUNT(*) FROM idx").unwrap();
    assert!(query.fields.is_empty());
    assert_eq!(query.aggregates.len(), 1);
    assert!(matches!(query.aggregates[0].function, AggregateFunction::Count));
    assert!(query.aggregates[0].field.is_none()); // COUNT(*) has no field

    let query = parse("SELECT SUM(idx.price) FROM idx").unwrap();
    assert!(matches!(query.aggregates[0].function, AggregateFunction::Sum));
    assert_eq!(query.aggregates[0].field.as_deref(), Some("price"));

    let agg = parse_aggregate_function(
        &call("COUNT", vec![arg(ident("category"))]),
        Some("cnt".to_string()),
    )
    .unwrap()
    .unwrap();
    assert!(matches!(agg.function, AggregateFunction::Count));
    assert_eq!(agg.field.as_deref(), Some("category"));
    assert_eq!(agg.alias.as_deref(), Some("cnt"));

    let query = parse("SELECT AVG(price), MIN(price), MAX(price) FROM idx").unwrap();
    assert!(matches!(query.aggregates[0].function, AggregateFunction::Avg));
    assert!(matches!(query.aggregates[1].function, AggregateFunction::Min));
    assert!(matches!(query.aggregates[2].function, AggregateFunction::Max));

    let query =
        parse("SELECT COUNT_DISTINCT(user_id), COUNT_DISTINCTISH(user_id), STDDEV(price) FROM idx")
            .unwrap();
    assert!(matches!(query.aggregates[0].function, AggregateFunction::CountDistinct));
    assert!(matches!(query.aggregates[1].function, AggregateFunction::CountDistinctish));
    assert!(matches!(query.aggregates[2].function, AggregateFunction::Stddev));

    let query = parse("SELECT TOLIST(name), HLL(user_id), HLL_SUM(hll_blob) FROM idx").unwrap();
    assert!(matches!(query.aggregates[0].function, AggregateFunction::Tolist));
    assert!(matches!(query.aggregates[1].function, AggregateFunction::Hll));
    assert!(matches!(query.aggregates[2].function, AggregateFunction::HllSum));
}

#[test]
fn test_parse_aggregate_sum() {
    let query = parse("SELECT QUANTILE(price, 0.5) FROM idx").unwrap();
    match &query.aggregates[0].function {
        AggregateFunction::Quantile { percentile } => {
            assert_eq!(percentile.to_display_string(), "0.5");
        }
        other => panic!("Expected Quantile aggregate, got {other:?}"),
    }

    let err = parse("SELECT QUANTILE(price) FROM idx").unwrap_err();
    assert!(err.message.contains("QUANTILE requires exactly 2 arguments"));

    let err = parse("SELECT QUANTILE(price, 1.5) FROM idx").unwrap_err();
    assert!(err.message.contains("between 0.0 and 1.0"));

    let err = parse_aggregate_function(
        &call("QUANTILE", vec![arg(ident("price")), arg(quoted("oops"))]),
        None,
    )
    .unwrap_err();
    assert!(err.message.contains("must be a number"));

    let query = parse("SELECT RANDOM_SAMPLE(name, 5) FROM idx").unwrap();
    match &query.aggregates[0].function {
        AggregateFunction::RandomSample { size } => assert_eq!(*size, 5),
        other => panic!("Expected RandomSample aggregate, got {other:?}"),
    }

    let err =
        parse_aggregate_function(&call("RANDOM_SAMPLE", vec![arg(ident("name"))]), None)
            .unwrap_err();
    assert!(err.message.contains("requires exactly 2 arguments"));

    let err = parse_aggregate_function(
        &call("RANDOM_SAMPLE", vec![arg(ident("name")), arg(quoted("oops"))]),
        None,
    )
    .unwrap_err();
    assert!(err.message.contains("positive integer"));

    let err = parse("SELECT RANDOM_SAMPLE(name, 0) FROM idx").unwrap_err();
    assert!(err.message.contains("between 1 and 1000"));

    let query = parse("SELECT FIRST_VALUE(name, price, 'ASC') FROM idx").unwrap();
    match &query.aggregates[0].function {
        AggregateFunction::FirstValue { sort_field, ascending } => {
            assert_eq!(sort_field, "price");
            assert!(*ascending);
        }
        other => panic!("Expected FirstValue aggregate, got {other:?}"),
    }

    let query = parse("SELECT FIRST_VALUE(name, price) FROM idx").unwrap();
    match &query.aggregates[0].function {
        AggregateFunction::FirstValue { ascending, .. } => assert!(!ascending),
        other => panic!("Expected FirstValue aggregate, got {other:?}"),
    }

    let err = parse_aggregate_function(&call("FIRST_VALUE", vec![arg(ident("name"))]), None)
        .unwrap_err();
    assert!(err.message.contains("requires 2-3 arguments"));

    let err = parse("SELECT FIRST_VALUE(name, price, 'SIDEWAYS') FROM idx").unwrap_err();
    assert!(err.message.contains("must be 'ASC' or 'DESC'"));
}

#[test]
fn test_parse_group_by() {
    let query = parse(
        "SELECT category, COUNT(*) AS cnt, SUM(price) AS total \
         FROM idx GROUP BY category HAVING (COUNT(*) = 5 OR SUM(price) != 7)",
    )
    .unwrap();
    assert!(query.group_by.is_some());
    let group_by = query.group_by.unwrap();
    assert_eq!(group_by.fields, vec!["category"]);

    match query.having.unwrap() {
        Condition::Or(left, right) => {
            assert!(matches!(*left, Condition::Equals { .. }));
            assert!(matches!(*right, Condition::NotEquals { .. }));
        }
        other => panic!("Expected OR HAVING condition, got {other:?}"),
    }

    let query = parse(
        "SELECT category, COUNT(*) AS cnt, AVG(price) AS avg_price \
         FROM idx GROUP BY category HAVING COUNT(*) > 2 AND AVG(price) < 5",
    )
    .unwrap();
    assert!(matches!(query.having.unwrap(), Condition::And(_, _)));

    // (COUNT(*) = 5 OR SUM(price) != 7)
    let or_having = expr(SqlExprKind::Nested(Box::new(binary(
        binary(count_star(), SqlBinaryOpKind::Eq, number("5")),
        SqlBinaryOpKind::Or,
        binary(aggregate_of("SUM", "price"), SqlBinaryOpKind::NotEq, number("7")),
    ))));
    let condition = parse_having_expression(&or_having).unwrap();
    assert!(matches!(condition, Condition::Or(_, _)));

    // COUNT(*) > 2 AND AVG(price) < 5
    let and_having = binary(
        binary(count_star(), SqlBinaryOpKind::Gt, number("2")),
        SqlBinaryOpKind::And,
        binary(aggregate_of("AVG", "price"), SqlBinaryOpKind::Lt, number("5")),
    );
    let condition = parse_having_expression(&and_having).unwrap();
    assert!(matches!(condition, Condition::And(_, _)));

    assert_eq!(extract_having_field(&ident("cnt")).unwrap(), "cnt");
    assert_eq!(extract_having_field(&count_star()).unwrap(), "count");
    assert_eq!(extract_having_field(&aggregate_of("SUM", "price")).unwrap(), "sum_price");
    let first_value = expr(SqlExprKind::Function(call(
        "FIRST_VALUE",
        vec![arg(ident("name")), arg(ident("price"))],
    )));
    assert_eq!(extract_having_field(&first_value).unwrap(), "first_value");

    let err = parse_having_expression(&count_star()).unwrap_err();
    assert!(err.message.contains("Only simple comparisons"));

    let err = parse("SELECT category FROM idx GROUP BY ALL").unwrap_err();
    assert!(err.message.contains("GROUP BY ALL"));

    let err = parse("SELECT category, COUNT(*) FROM idx GROUP BY category HAVING COUNT(*) + 1")
        .unwrap_err();
    assert!(err.message.contains("not supported in HAVING clause"));
}

#[test]
fn having_field_of_a_literal_is_refused() {
    let err = extract_having_field(&number("3")).unwrap_err();
    assert!(err.message.starts_with("Unsupported expression in HAVING: "));
}

#[test]
fn aggregate_from_upper_case_name() {
    let args = vec!["price".to_string()];
    let agg = aggregate_from_parts("SUM", &args, "", Some("total".to_string())).unwrap().unwrap();
    assert!(matches!(agg.function, AggregateFunction::Sum));
    assert_eq!(agg.field.as_deref(), Some("price"));
    assert_eq!(agg.alias.as_deref(), Some("total"));
    // The name is matched as given: a lower-case name is no aggregate here.
    assert!(aggregate_from_parts("sum", &args, "", None).unwrap().is_none());
    let args = vec!["name".to_string(), "price".to_string(), "asc".to_string()];
    let agg = first_value_with_direction(&args, "ASC", None).unwrap().unwrap();
    assert!(matches!(agg.function, AggregateFunction::FirstValue { ascending: true, .. }));
    let err = first_value_with_direction(&args, "asc", None).unwrap_err();
    assert!(err.message.contains("must be 'ASC' or 'DESC'"));
    let f = call("COUNT", vec![SqlFunctionArg::Wildcard]);
    assert_eq!(having_field_from_name("count".to_string(), &f).unwrap(), "count");
    let f = call("SUM", vec![arg(ident("price"))]);
    assert_eq!(having_field_from_name("sum".to_string(), &f).unwrap(), "sum_price");
}
