//! WHERE expressions to conditions, and the identifiers and literal values
//! inside them.

use vstd::prelude::*;
use crate::sql_parser::ast::{Condition, SpecCondition, SpecValue, Value, values_view};
use crate::sql_parser::error::{ErrorCategory, SpecSqlError, SqlError, plain_error};
use crate::sql_parser::number::{Number, SpecNumber, negated, parse_float};
use crate::sql_parser::parser::syntax::{SqlBinaryOpKind, SqlExpr, SqlExprKind, SqlValue};
use crate::sql_parser::text::push_str;
use crate::sql_parser::translator::conditions_view;

verus! {

pub open spec fn translation_err<T>(message: Seq<char>) -> Result<T, SpecSqlError> {
    Err(plain_error(ErrorCategory::Translation, message))
}

pub open spec fn unsupported_err<T>(message: Seq<char>) -> Result<T, SpecSqlError> {
    Err(plain_error(ErrorCategory::Unsupported, message))
}

pub open spec fn syntax_err<T>(message: Seq<char>) -> Result<T, SpecSqlError> {
    Err(plain_error(ErrorCategory::Syntax, message))
}

/// The column an expression names: an identifier, or the last part of a
/// compound identifier (empty when it has no part).
pub open spec fn identifier_of(e: SqlExpr) -> Result<Seq<char>, SpecSqlError> {
    match e.kind {
        SqlExprKind::Identifier(s) => Ok(s@),
        SqlExprKind::CompoundIdentifier(parts) => Ok(
            if parts@.len() == 0 {
                Seq::empty()
            } else {
                parts@.last()@
            },
        ),
        _ => translation_err("Expected identifier, got: "@ + e.debug@),
    }
}

/// A numeric literal read as `f64::from_str` reads it.
pub open spec fn number_of(n: Seq<char>) -> Result<SpecNumber, SpecSqlError> {
    match parse_float(n) {
        Some(x) => Ok(x),
        None => translation_err("Invalid number: "@ + n),
    }
}

/// The literal value of an expression: a number, a quoted string, or a
/// negated number.
pub open spec fn value_of(e: SqlExpr) -> Result<SpecValue, SpecSqlError> {
    match e.kind {
        SqlExprKind::Literal(v) => match v {
            SqlValue::Number(n) => match number_of(n@) {
                Ok(x) => Ok(SpecValue::Num(x)),
                Err(err) => Err(err),
            },
            SqlValue::SingleQuoted(s) => Ok(SpecValue::Str(s@)),
            SqlValue::DoubleQuoted(s) => Ok(SpecValue::Str(s@)),
            SqlValue::Other(d) => unsupported_err("Unsupported value type: "@ + d@),
        },
        SqlExprKind::Minus(inner) => match inner.kind {
            SqlExprKind::Literal(SqlValue::Number(n)) => match number_of(n@) {
                Ok(x) => Ok(SpecValue::Num(negated(x))),
                Err(err) => Err(err),
            },
            _ => translation_err("Expected numeric value, got: "@ + inner.debug@),
        },
        _ => translation_err("Expected value, got: "@ + e.debug@),
    }
}

/// The text of a quoted string literal.
pub open spec fn string_of(e: SqlExpr) -> Result<Seq<char>, SpecSqlError> {
    match e.kind {
        SqlExprKind::Literal(SqlValue::SingleQuoted(s)) => Ok(s@),
        SqlExprKind::Literal(SqlValue::DoubleQuoted(s)) => Ok(s@),
        _ => translation_err("Expected string value, got: "@ + e.debug@),
    }
}

/// The values of a list of expressions, or the first error among them.
pub open spec fn values_of(list: Seq<SqlExpr>) -> Result<Seq<SpecValue>, SpecSqlError>
    decreases list.len(),
{
    if list.len() == 0 {
        Ok(Seq::empty())
    } else {
        match values_of(list.drop_last()) {
            Ok(vs) => match value_of(list.last()) {
                Ok(v) => Ok(vs.push(v)),
                Err(err) => Err(err),
            },
            Err(err) => Err(err),
        }
    }
}

pub open spec fn is_comparison(op: SqlBinaryOpKind) -> bool {
    ||| op is Eq
    ||| op is NotEq
    ||| op is Gt
    ||| op is GtEq
    ||| op is Lt
    ||| op is LtEq
}

/// The condition `field op value` for a comparison operator.
pub open spec fn comparison_condition(op: SqlBinaryOpKind, field: Seq<char>, value: SpecValue) -> SpecCondition {
    match op {
        SqlBinaryOpKind::Eq => SpecCondition::Equals { field, value },
        SqlBinaryOpKind::NotEq => SpecCondition::NotEquals { field, value },
        SqlBinaryOpKind::Gt => SpecCondition::GreaterThan { field, value },
        SqlBinaryOpKind::GtEq => SpecCondition::GreaterThanOrEqual { field, value },
        SqlBinaryOpKind::Lt => SpecCondition::LessThan { field, value },
        _ => SpecCondition::LessThanOrEqual { field, value },
    }
}

/// `column op literal`: the column is read before the value.
pub open spec fn field_comparison(op: SqlBinaryOpKind, field: Result<Seq<char>, SpecSqlError>, value: Result<SpecValue, SpecSqlError>) -> Result<SpecCondition, SpecSqlError> {
    match field {
        Err(err) => Err(err),
        Ok(f) => match value {
            Err(err) => Err(err),
            Ok(v) => Ok(comparison_condition(op, f, v)),
        },
    }
}

pub open spec fn complex_boolean_message(examples: Seq<char>) -> Seq<char> {
    "Complex boolean expressions like "@ + examples
        + " are not yet supported; supported WHERE boolean forms are simple `a AND b`, simple `a OR b`, and `NOT <single predicate>`"@
}

/// The single condition of a leaf expression: a comparison, BETWEEN, IN,
/// LIKE or IS [NOT] NULL; any other expression is unsupported.
pub open spec fn leaf_condition(e: SqlExpr) -> Result<SpecCondition, SpecSqlError> {
    match e.kind {
        SqlExprKind::BinaryOp { left, op, right } => if is_comparison(op.kind) {
            field_comparison(op.kind, identifier_of(*left), value_of(*right))
        } else {
            unsupported_err("Operator "@ + op.debug@ + " is not supported"@)
        },
        SqlExprKind::Between { expr, low, high, negated } => if negated {
            unsupported_err("NOT BETWEEN is not supported in Phase 1"@)
        } else {
            match identifier_of(*expr) {
                Err(err) => Err(err),
                Ok(field) => match value_of(*low) {
                    Err(err) => Err(err),
                    Ok(lo) => match value_of(*high) {
                        Err(err) => Err(err),
                        Ok(hi) => Ok(SpecCondition::Between { field, low: lo, high: hi }),
                    },
                },
            }
        },
        SqlExprKind::InList { expr, list, negated } => match identifier_of(*expr) {
            Err(err) => Err(err),
            Ok(field) => match values_of(list@) {
                Err(err) => Err(err),
                Ok(values) => if values.len() == 0 {
                    syntax_err("IN clause requires at least one value"@)
                } else {
                    Ok(SpecCondition::In { field, values, negated })
                },
            },
        },
        SqlExprKind::Like { expr, pattern, negated } => match identifier_of(*expr) {
            Err(err) => Err(err),
            Ok(field) => match string_of(*pattern) {
                Err(err) => Err(err),
                Ok(p) => Ok(SpecCondition::Like { field, pattern: p, negated }),
            },
        },
        SqlExprKind::IsNull(inner) => match identifier_of(*inner) {
            Err(err) => Err(err),
            Ok(field) => Ok(SpecCondition::IsNull { field, negated: false }),
        },
        SqlExprKind::IsNotNull(inner) => match identifier_of(*inner) {
            Err(err) => Err(err),
            Ok(field) => Ok(SpecCondition::IsNull { field, negated: true }),
        },
        _ => unsupported_err("Unsupported expression type: "@ + e.debug@),
    }
}

/// `a AND b`: the conditions of both sides, left first.
pub open spec fn and_conditions(
    l: Result<Seq<SpecCondition>, SpecSqlError>,
    r: Result<Seq<SpecCondition>, SpecSqlError>,
) -> Result<Seq<SpecCondition>, SpecSqlError> {
    match l {
        Err(err) => Err(err),
        Ok(lc) => match r {
            Err(err) => Err(err),
            Ok(rc) => Ok(lc + rc),
        },
    }
}

/// `a OR b`: one OR condition, when each side is a single condition.
pub open spec fn or_conditions(
    l: Result<Seq<SpecCondition>, SpecSqlError>,
    r: Result<Seq<SpecCondition>, SpecSqlError>,
) -> Result<Seq<SpecCondition>, SpecSqlError> {
    match l {
        Err(err) => Err(err),
        Ok(lc) => match r {
            Err(err) => Err(err),
            Ok(rc) => if lc.len() == 1 && rc.len() == 1 {
                Ok(seq![SpecCondition::Or(Box::new(lc[0]), Box::new(rc[0]))])
            } else {
                unsupported_err(complex_boolean_message("`(a AND b) OR c` or `a OR (b AND c)`"@))
            },
        },
    }
}

/// `NOT a`: one NOT condition, when the operand is a single condition.
pub open spec fn not_conditions(inner: Result<Seq<SpecCondition>, SpecSqlError>) -> Result<
    Seq<SpecCondition>,
    SpecSqlError,
> {
    match inner {
        Err(err) => Err(err),
        Ok(cs) => if cs.len() == 1 {
            Ok(seq![SpecCondition::Not(Box::new(cs[0]))])
        } else {
            unsupported_err(complex_boolean_message("`NOT (a AND b)`"@))
        },
    }
}

/// A LIKE predicate keeps its NOT: `x NOT LIKE p` parses to a negated Like
/// condition and `x LIKE p` to a plain one, on the column and pattern that
/// the predicate names; so the two never parse to the same condition.
pub proof fn lemma_like_keeps_negation(expr: Box<SqlExpr>, pattern: Box<SqlExpr>, negated: bool, debug: String)
    requires
        identifier_of(*expr) is Ok,
        string_of(*pattern) is Ok,
    ensures
        leaf_condition(SqlExpr { kind: SqlExprKind::Like { expr, pattern, negated }, debug })
            == Ok::<SpecCondition, SpecSqlError>(
            SpecCondition::Like {
                field: identifier_of(*expr)->Ok_0,
                pattern: string_of(*pattern)->Ok_0,
                negated,
            },
        ),
        leaf_condition(SqlExpr { kind: SqlExprKind::Like { expr, pattern, negated: true }, debug })
            != leaf_condition(SqlExpr { kind: SqlExprKind::Like { expr, pattern, negated: false }, debug }),
{
}

/// The conditions a WHERE expression stands for, in order: AND chains are
/// flattened, a simple OR or NOT wraps exactly one condition on each side.
pub open spec fn where_conditions(e: SqlExpr) -> Result<Seq<SpecCondition>, SpecSqlError>
    decreases e,
{
    match e.kind {
        SqlExprKind::BinaryOp { left, op, right } => if op.kind is And {
            and_conditions(where_conditions(*left), where_conditions(*right))
        } else if op.kind is Or {
            or_conditions(where_conditions(*left), where_conditions(*right))
        } else {
            single(leaf_condition(e))
        },
        SqlExprKind::Nested(inner) => where_conditions(*inner),
        SqlExprKind::Not(inner) => not_conditions(where_conditions(*inner)),
        _ => single(leaf_condition(e)),
    }
}

pub open spec fn single(c: Result<SpecCondition, SpecSqlError>) -> Result<Seq<SpecCondition>, SpecSqlError> {
    match c {
        Ok(x) => Ok(seq![x]),
        Err(err) => Err(err),
    }
}

/// Two strings joined.
pub fn concat(a: &str, b: &str) -> (r: String)
    ensures
        r@ == a@ + b@,
{
    let mut r = String::from_str(a);
    push_str(&mut r, b);
    r
}

/// Extracts the column name of an identifier expression.
pub fn extract_identifier(expr: &SqlExpr) -> (r: Result<String, SqlError>)
    ensures
        match r {
            Ok(s) => identifier_of(*expr) == Ok::<Seq<char>, SpecSqlError>(s@),
            Err(e) => identifier_of(*expr) == Err::<Seq<char>, SpecSqlError>(e@),
        },
{
    match &expr.kind {
        SqlExprKind::Identifier(s) => Ok(s.clone()),
        SqlExprKind::CompoundIdentifier(parts) => {
            if parts.len() == 0 {
                Ok(String::new())
            } else {
                Ok(parts[parts.len() - 1].clone())
            }
        },
        _ => Err(SqlError::translation(concat("Expected identifier, got: ", expr.debug.as_str()))),
    }
}

fn number_value(n: &String) -> (r: Result<Number, SqlError>)
    ensures
        match r {
            Ok(x) => number_of(n@) == Ok::<SpecNumber, SpecSqlError>(x@),
            Err(e) => number_of(n@) == Err::<SpecNumber, SpecSqlError>(e@),
        },
{
    match Number::parse(n.as_str()) {
        Some(x) => Ok(x),
        None => Err(SqlError::translation(concat("Invalid number: ", n.as_str()))),
    }
}

/// Extracts a literal value: a number, a quoted string or a negated number.
pub fn extract_value(expr: &SqlExpr) -> (r: Result<Value, SqlError>)
    ensures
        match r {
            Ok(v) => value_of(*expr) == Ok::<SpecValue, SpecSqlError>(v@),
            Err(e) => value_of(*expr) == Err::<SpecValue, SpecSqlError>(e@),
        },
{
    match &expr.kind {
        SqlExprKind::Literal(v) => match v {
            SqlValue::Number(n) => {
                let x = number_value(n)?;
                Ok(Value::Number(x))
            },
            SqlValue::SingleQuoted(s) => Ok(Value::String(s.clone())),
            SqlValue::DoubleQuoted(s) => Ok(Value::String(s.clone())),
            SqlValue::Other(d) => Err(SqlError::unsupported(concat("Unsupported value type: ", d.as_str()))),
        },
        SqlExprKind::Minus(inner) => match &inner.kind {
            SqlExprKind::Literal(SqlValue::Number(n)) => {
                let x = number_value(n)?;
                Ok(Value::Number(x.negate()))
            },
            _ => Err(
                SqlError::translation(concat("Expected numeric value, got: ", inner.debug.as_str())),
            ),
        },
        _ => Err(SqlError::translation(concat("Expected value, got: ", expr.debug.as_str()))),
    }
}

/// Extracts the text of a quoted string literal.
pub fn extract_string_value(expr: &SqlExpr) -> (r: Result<String, SqlError>)
    ensures
        match r {
            Ok(s) => string_of(*expr) == Ok::<Seq<char>, SpecSqlError>(s@),
            Err(e) => string_of(*expr) == Err::<Seq<char>, SpecSqlError>(e@),
        },
{
    match &expr.kind {
        SqlExprKind::Literal(SqlValue::SingleQuoted(s)) => Ok(s.clone()),
        SqlExprKind::Literal(SqlValue::DoubleQuoted(s)) => Ok(s.clone()),
        _ => Err(SqlError::translation(concat("Expected string value, got: ", expr.debug.as_str()))),
    }
}

/// Extracts the values of a list of expressions, stopping at the first error.
pub fn extract_values(list: &Vec<SqlExpr>) -> (r: Result<Vec<Value>, SqlError>)
    ensures
        match r {
            Ok(vs) => values_of(list@) == Ok::<Seq<SpecValue>, SpecSqlError>(values_view(vs@)),
            Err(e) => values_of(list@) == Err::<Seq<SpecValue>, SpecSqlError>(e@),
        },
{
    let mut values: Vec<Value> = Vec::new();
    assert(list@.take(0) =~= Seq::<SqlExpr>::empty());
    assert(values_view(values@) =~= Seq::<SpecValue>::empty());
    let mut i: usize = 0;
    while i < list.len()
        invariant
            i <= list@.len(),
            values_of(list@.take(i as int)) == Ok::<Seq<SpecValue>, SpecSqlError>(
                values_view(values@),
            ),
        decreases list@.len() - i,
    {
        assert(list@.take(i + 1).drop_last() == list@.take(i as int));
        assert(list@.take(i + 1).last() == list@[i as int]);
        let ghost before = values@;
        match extract_value(&list[i]) {
            Ok(v) => {
                values.push(v);
                assert(values_view(values@) == values_view(before).push(values@.last()@));
            },
            Err(e) => {
                proof {
                    lemma_values_error(list@, i as int);
                }
                return Err(e);
            },
        }
        i = i + 1;
    }
    assert(list@.take(list@.len() as int) == list@);
    Ok(values)
}

proof fn lemma_values_error(list: Seq<SqlExpr>, i: int)
    requires
        0 <= i < list.len(),
        values_of(list.take(i)) is Ok,
        value_of(list[i]) is Err,
    ensures
        values_of(list) == Err::<Seq<SpecValue>, SpecSqlError>(value_of(list[i])->Err_0),
    decreases list.len() - i,
{
    if i == list.len() - 1 {
        assert(list.drop_last() == list.take(i));
    } else {
        assert(list.drop_last().take(i) == list.take(i));
        lemma_values_error(list.drop_last(), i);
        assert(list.drop_last()[i] == list[i]);
    }
}

pub open spec fn appended(before: Seq<Condition>, after: Seq<Condition>, added: Seq<SpecCondition>) -> bool {
    conditions_view(after) == conditions_view(before) + added
}

/// Parses a WHERE expression into conditions.
pub fn parse_where_clause(expr: &SqlExpr) -> (r: Result<Vec<Condition>, SqlError>)
    ensures
        match r {
            Ok(cs) => where_conditions(*expr) == Ok::<Seq<SpecCondition>, SpecSqlError>(
                conditions_view(cs@),
            ),
            Err(e) => where_conditions(*expr) == Err::<Seq<SpecCondition>, SpecSqlError>(e@),
        },
{
    let mut conditions: Vec<Condition> = Vec::new();
    assert(conditions_view(conditions@) =~= Seq::<SpecCondition>::empty());
    parse_expression(expr, &mut conditions)?;
    assert(conditions_view(Seq::<Condition>::empty()) =~= Seq::<SpecCondition>::empty());
    assert(conditions_view(conditions@) =~= where_conditions(*expr)->Ok_0);
    Ok(conditions)
}

fn push_condition(conditions: &mut Vec<Condition>, c: Condition)
    ensures
        conditions_view(final(conditions)@) == conditions_view(old(conditions)@) + seq![c@],
{
    let ghost before = conditions@;
    conditions.push(c);
    assert(conditions_view(conditions@) =~= conditions_view(before) + seq![c@]);
}

fn single_condition(mut cs: Vec<Condition>) -> (r: Option<Condition>)
    ensures
        match r {
            Some(c) => conditions_view(cs@).len() == 1 && c@ == conditions_view(cs@)[0],
            None => conditions_view(cs@).len() != 1,
        },
{
    if cs.len() == 1 {
        let ghost v = cs@;
        let c = cs.pop().unwrap();
        assert(c == v[0]);
        Some(c)
    } else {
        None
    }
}

fn comparison(op: &SqlBinaryOpKind, field: String, value: Value) -> (c: Condition)
    requires
        is_comparison(*op),
    ensures
        c@ == comparison_condition(*op, field@, value@),
{
    match op {
        SqlBinaryOpKind::Eq => Condition::Equals { field, value },
        SqlBinaryOpKind::NotEq => Condition::NotEquals { field, value },
        SqlBinaryOpKind::Gt => Condition::GreaterThan { field, value },
        SqlBinaryOpKind::GtEq => Condition::GreaterThanOrEqual { field, value },
        SqlBinaryOpKind::Lt => Condition::LessThan { field, value },
        _ => Condition::LessThanOrEqual { field, value },
    }
}

fn is_comparison_op(op: &SqlBinaryOpKind) -> (b: bool)
    ensures
        b == is_comparison(*op),
{
    match op {
        SqlBinaryOpKind::Eq | SqlBinaryOpKind::NotEq | SqlBinaryOpKind::Gt
        | SqlBinaryOpKind::GtEq | SqlBinaryOpKind::Lt | SqlBinaryOpKind::LtEq => true,
        _ => false,
    }
}

fn unsupported_operator(debug: &String) -> (e: SqlError)
    ensures
        e@ == plain_error(ErrorCategory::Unsupported, "Operator "@ + debug@ + " is not supported"@),
{
    let mut m = String::from_str("Operator ");
    push_str(&mut m, debug.as_str());
    push_str(&mut m, " is not supported");
    SqlError::unsupported(m)
}

/// The condition of a leaf expression.
fn parse_leaf(expr: &SqlExpr) -> (r: Result<Condition, SqlError>)
    ensures
        match r {
            Ok(c) => leaf_condition(*expr) == Ok::<SpecCondition, SpecSqlError>(c@),
            Err(e) => leaf_condition(*expr) == Err::<SpecCondition, SpecSqlError>(e@),
        },
{
    match &expr.kind {
        SqlExprKind::BinaryOp { left, op, right } => {
            if is_comparison_op(&op.kind) {
                let field = extract_identifier(left)?;
                let value = extract_value(right)?;
                Ok(comparison(&op.kind, field, value))
            } else {
                Err(unsupported_operator(&op.debug))
            }
        },
        SqlExprKind::Between { expr: inner, low, high, negated } => {
            if *negated {
                return Err(SqlError::unsupported("NOT BETWEEN is not supported in Phase 1"));
            }
            let field = extract_identifier(inner)?;
            let low_val = extract_value(low)?;
            let high_val = extract_value(high)?;
            Ok(Condition::Between { field, low: low_val, high: high_val })
        },
        SqlExprKind::InList { expr: inner, list, negated } => {
            let field = extract_identifier(inner)?;
            let values = extract_values(list)?;
            if values.len() == 0 {
                return Err(SqlError::syntax("IN clause requires at least one value"));
            }
            Ok(Condition::In { field, values, negated: *negated })
        },
        SqlExprKind::Like { expr: inner, pattern, negated } => {
            let field = extract_identifier(inner)?;
            let pattern_str = extract_string_value(pattern)?;
            Ok(Condition::Like { field, pattern: pattern_str, negated: *negated })
        },
        SqlExprKind::IsNull(inner) => {
            let field = extract_identifier(inner)?;
            Ok(Condition::IsNull { field, negated: false })
        },
        SqlExprKind::IsNotNull(inner) => {
            let field = extract_identifier(inner)?;
            Ok(Condition::IsNull { field, negated: true })
        },
        _ => Err(SqlError::unsupported(concat("Unsupported expression type: ", expr.debug.as_str()))),
    }
}

fn unsupported_complex_boolean_expression(examples: &str) -> (e: SqlError)
    ensures
        e@ == plain_error(ErrorCategory::Unsupported, complex_boolean_message(examples@)),
{
    SqlError::unsupported(
        concat(
            concat("Complex boolean expressions like ", examples).as_str(),
            " are not yet supported; supported WHERE boolean forms are simple `a AND b`, simple `a OR b`, and `NOT <single predicate>`",
        ),
    )
}

pub open spec fn parse_post(
    expr: SqlExpr,
    before: Seq<Condition>,
    after: Seq<Condition>,
    r: Result<(), SqlError>,
) -> bool {
    match r {
        Ok(_) => where_conditions(expr) is Ok && appended(before, after, where_conditions(expr)->Ok_0),
        Err(e) => where_conditions(expr) == Err::<Seq<SpecCondition>, SpecSqlError>(e@),
    }
}

fn parse_and(expr: &SqlExpr, conditions: &mut Vec<Condition>) -> (r: Result<(), SqlError>)
    requires
        expr.kind matches SqlExprKind::BinaryOp { op, .. } && op.kind is And,
    ensures
        parse_post(*expr, old(conditions)@, final(conditions)@, r),
    decreases expr, 0nat,
{
    let ghost before = conditions@;
    if let SqlExprKind::BinaryOp { left, right, .. } = &expr.kind {
        parse_expression(left, conditions)?;
        parse_expression(right, conditions)?;
        let ghost l = where_conditions(**left)->Ok_0;
        let ghost r = where_conditions(**right)->Ok_0;
        assert(conditions_view(conditions@) =~= conditions_view(before) + (l + r));
    }
    Ok(())
}

fn parse_or(expr: &SqlExpr, conditions: &mut Vec<Condition>) -> (r: Result<(), SqlError>)
    requires
        expr.kind matches SqlExprKind::BinaryOp { op, .. } && op.kind is Or,
    ensures
        parse_post(*expr, old(conditions)@, final(conditions)@, r),
    decreases expr, 0nat,
{
    if let SqlExprKind::BinaryOp { left, right, .. } = &expr.kind {
        let mut left_conditions: Vec<Condition> = Vec::new();
        let mut right_conditions: Vec<Condition> = Vec::new();
        assert(conditions_view(left_conditions@) =~= Seq::<SpecCondition>::empty());
        assert(conditions_view(right_conditions@) =~= Seq::<SpecCondition>::empty());
        parse_expression(left, &mut left_conditions)?;
        parse_expression(right, &mut right_conditions)?;
        let l = single_condition(left_conditions);
        let r = single_condition(right_conditions);
        if l.is_some() && r.is_some() {
            let lc = l.unwrap();
            let rc = r.unwrap();
            push_condition(conditions, Condition::Or(Box::new(lc), Box::new(rc)));
            Ok(())
        } else {
            Err(unsupported_complex_boolean_expression("`(a AND b) OR c` or `a OR (b AND c)`"))
        }
    } else {
        Ok(())
    }
}

fn parse_not(expr: &SqlExpr, conditions: &mut Vec<Condition>) -> (r: Result<(), SqlError>)
    requires
        expr.kind is Not,
    ensures
        parse_post(*expr, old(conditions)@, final(conditions)@, r),
    decreases expr, 0nat,
{
    if let SqlExprKind::Not(inner) = &expr.kind {
        let mut inner_conditions: Vec<Condition> = Vec::new();
        assert(conditions_view(inner_conditions@) =~= Seq::<SpecCondition>::empty());
        parse_expression(inner, &mut inner_conditions)?;
        let one = single_condition(inner_conditions);
        if one.is_some() {
            let c = one.unwrap();
            push_condition(conditions, Condition::Not(Box::new(c)));
            Ok(())
        } else {
            Err(unsupported_complex_boolean_expression("`NOT (a AND b)`"))
        }
    } else {
        Ok(())
    }
}

fn is_and(op: &SqlBinaryOpKind) -> (b: bool)
    ensures
        b == op is And,
{
    match op {
        SqlBinaryOpKind::And => true,
        _ => false,
    }
}

fn is_or(op: &SqlBinaryOpKind) -> (b: bool)
    ensures
        b == op is Or,
{
    match op {
        SqlBinaryOpKind::Or => true,
        _ => false,
    }
}

/// Appends the conditions of the expression to `conditions`.
pub fn parse_expression(expr: &SqlExpr, conditions: &mut Vec<Condition>) -> (r: Result<(), SqlError>)
    ensures
        parse_post(*expr, old(conditions)@, final(conditions)@, r),
    decreases expr, 1nat,
{
    match &expr.kind {
        SqlExprKind::BinaryOp { op, .. } => {
            if is_and(&op.kind) {
                return parse_and(expr, conditions);
            }
            if is_or(&op.kind) {
                return parse_or(expr, conditions);
            }
        },
        SqlExprKind::Nested(inner) => {
            return parse_expression(inner, conditions);
        },
        SqlExprKind::Not(_) => {
            return parse_not(expr, conditions);
        },
        _ => {},
    }
    let c = parse_leaf(expr)?;
    push_condition(conditions, c);
    Ok(())
}

} // verus!
