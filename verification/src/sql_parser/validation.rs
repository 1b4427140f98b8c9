//! Basic validation for SQL queries.
//!
//! Checks SQL queries against supported features and size limits, before and
//! after parsing.

use vstd::prelude::*;
use crate::sql_parser::ast::{Condition, SelectQuery, SpecCondition, SpecSelectQuery};
use crate::sql_parser::error::{ErrorCategory, SpecSqlError, SqlError, plain_error};
use crate::sql_parser::text::{char_is_control, char_is_whitespace, chars_of, is_control, is_whitespace};
use crate::sql_parser::translator::conditions_view;
use vstd::string::StringSliceAdditionalSpecFns;

verus! {

/// Maximum query size in bytes (64KB).
pub const MAX_QUERY_SIZE: usize = 65536;

/// Maximum nesting depth for boolean condition trees.
pub const MAX_NESTING_DEPTH: usize = 32;

/// Maximum number of values in a single IN clause.
pub const MAX_IN_VALUES: usize = 1000;

/// Maximum number of projected columns (explicit fields + aggregates).
pub const MAX_SELECT_COLUMNS: usize = 100;

/// Maximum number of ORDER BY columns.
pub const MAX_ORDER_BY_COLUMNS: usize = 8;

pub open spec fn translation_error(message: Seq<char>) -> Result<(), SpecSqlError> {
    Err(plain_error(ErrorCategory::Translation, message))
}

/// The check of a raw query of the given characters and UTF-8 length in bytes.
pub open spec fn query_string_check(sql: Seq<char>, byte_len: nat) -> Result<(), SpecSqlError> {
    if sql.len() == 0 {
        Err(plain_error(ErrorCategory::Syntax, "Empty query"@))
    } else if byte_len > MAX_QUERY_SIZE {
        Err(plain_error(ErrorCategory::Syntax, "Query exceeds maximum size of 65536 bytes"@))
    } else {
        Ok(())
    }
}

/// The check of an index name.
pub open spec fn index_name_check(name: Seq<char>) -> Result<(), SpecSqlError> {
    if name.len() == 0 {
        translation_error("Index name cannot be empty"@)
    } else if exists|i: int|
        0 <= i < name.len() && (is_whitespace(#[trigger] name[i]) || is_control(name[i])) {
        translation_error("Index name cannot contain whitespace or control characters"@)
    } else {
        Ok(())
    }
}

/// The check of a condition found at the given nesting depth: the first
/// violation in a left-to-right walk of the tree.
pub open spec fn condition_check(c: SpecCondition, depth: nat) -> Result<(), SpecSqlError>
    decreases c,
{
    if depth > MAX_NESTING_DEPTH {
        translation_error("Query exceeds maximum nesting depth of 32"@)
    } else {
        match c {
            SpecCondition::In { values, .. } => if values.len() > MAX_IN_VALUES {
                translation_error("IN clause exceeds maximum of 1000 values"@)
            } else {
                Ok(())
            },
            SpecCondition::And(l, r) => match condition_check(*l, depth + 1) {
                Ok(_) => condition_check(*r, depth + 1),
                Err(e) => Err(e),
            },
            SpecCondition::Or(l, r) => match condition_check(*l, depth + 1) {
                Ok(_) => condition_check(*r, depth + 1),
                Err(e) => Err(e),
            },
            SpecCondition::Not(inner) => condition_check(*inner, depth + 1),
            _ => Ok(()),
        }
    }
}

/// The first failing check over top-level conditions, in order.
pub open spec fn conditions_check(cs: Seq<SpecCondition>) -> Result<(), SpecSqlError>
    decreases cs.len(),
{
    if cs.len() == 0 {
        Ok(())
    } else {
        match conditions_check(cs.drop_last()) {
            Ok(_) => condition_check(cs.last(), 1),
            Err(e) => Err(e),
        }
    }
}

/// The check of a parsed query, in the order the limits are tested.
pub open spec fn query_check(q: SpecSelectQuery) -> Result<(), SpecSqlError> {
    match index_name_check(q.index_name) {
        Err(e) => Err(e),
        Ok(_) => if q.fields.len() + q.aggregates.len() > MAX_SELECT_COLUMNS {
            translation_error("SELECT clause exceeds maximum of 100 projected columns"@)
        } else if q.order_by is Some && q.order_by->0.len() > MAX_ORDER_BY_COLUMNS {
            translation_error("ORDER BY clause exceeds maximum of 8 columns"@)
        } else {
            match conditions_check(q.conditions) {
                Err(e) => Err(e),
                Ok(_) => match q.having {
                    Some(h) => condition_check(h, 1),
                    None => Ok(()),
                },
            }
        },
    }
}

/// Validates the raw SQL query string before parsing.
pub fn validate_query_string(sql: &str) -> (r: Result<(), SqlError>)
    ensures
        match r {
            Ok(_) => query_string_check(sql@, sql.spec_bytes().len()) is Ok,
            Err(e) => query_string_check(sql@, sql.spec_bytes().len()) == Err::<(), SpecSqlError>(
                e@,
            ),
        },
{
    if sql.is_empty() {
        return Err(SqlError::syntax("Empty query"));
    }
    if sql.as_bytes().len() > MAX_QUERY_SIZE {
        return Err(SqlError::syntax("Query exceeds maximum size of 65536 bytes"));
    }
    Ok(())
}

/// Validates a parsed SQL query against supported features.
pub fn validate_query(query: &SelectQuery) -> (r: Result<(), SqlError>)
    ensures
        match r {
            Ok(_) => query_check(query@) is Ok,
            Err(e) => query_check(query@) == Err::<(), SpecSqlError>(e@),
        },
{
    validate_index_name(&query.index_name)?;
    let nf = query.fields.len();
    let na = query.aggregates.len();
    if nf > MAX_SELECT_COLUMNS || na > MAX_SELECT_COLUMNS - nf {
        return Err(SqlError::translation("SELECT clause exceeds maximum of 100 projected columns"));
    }
    match &query.order_by {
        Some(ob) => {
            if ob.columns.len() > MAX_ORDER_BY_COLUMNS {
                return Err(SqlError::translation("ORDER BY clause exceeds maximum of 8 columns"));
            }
        },
        None => {},
    }
    let ghost cs = query@.conditions;
    assert(conditions_view(query.conditions@) == cs);
    assert(query@.fields.len() + query@.aggregates.len() <= MAX_SELECT_COLUMNS);
    assert(query@.order_by is Some ==> query@.order_by->0.len() <= MAX_ORDER_BY_COLUMNS);
    assert(index_name_check(query@.index_name) is Ok);
    let mut i: usize = 0;
    while i < query.conditions.len()
        invariant
            cs == conditions_view(query.conditions@),
            i <= cs.len(),
            conditions_check(cs.take(i as int)) is Ok,
            cs == query@.conditions,
            query@.fields.len() + query@.aggregates.len() <= MAX_SELECT_COLUMNS,
            query@.order_by is Some ==> query@.order_by->0.len() <= MAX_ORDER_BY_COLUMNS,
            index_name_check(query@.index_name) is Ok,
        decreases cs.len() - i,
    {
        assert(cs.take(i + 1).drop_last() == cs.take(i as int));
        assert(cs[i as int] == query.conditions@[i as int]@);
        match validate_condition(&query.conditions[i], 1) {
            Ok(_) => {},
            Err(e) => {
                proof {
                    lemma_first_failure(cs, i as int);
                    assert(cs.take(cs.len() as int) == cs);
                    assert(conditions_check(cs.take(cs.len() as int)) == condition_check(
                        cs[i as int],
                        1,
                    ));
                }
                return Err(e);
            },
        }
        i = i + 1;
    }
    assert(cs.take(cs.len() as int) == cs);
    match &query.having {
        Some(h) => validate_condition(h, 1),
        None => Ok(()),
    }
}

proof fn lemma_first_failure(cs: Seq<SpecCondition>, i: int)
    requires
        0 <= i < cs.len(),
        conditions_check(cs.take(i)) is Ok,
        condition_check(cs[i], 1) is Err,
    ensures
        forall|n: int|
            i < n <= cs.len() ==> #[trigger] conditions_check(cs.take(n)) == condition_check(
                cs[i],
                1,
            ),
{
    assert forall|n: int| i < n <= cs.len() implies #[trigger] conditions_check(cs.take(n))
        == condition_check(cs[i], 1) by {
        lemma_prefix_failure(cs, i, n);
    }
}

proof fn lemma_prefix_failure(cs: Seq<SpecCondition>, i: int, n: int)
    requires
        0 <= i < n <= cs.len(),
        conditions_check(cs.take(i)) is Ok,
        condition_check(cs[i], 1) is Err,
    ensures
        conditions_check(cs.take(n)) == condition_check(cs[i], 1),
    decreases n - i,
{
    assert(cs.take(n).drop_last() == cs.take(n - 1));
    if n == i + 1 {
        assert(cs.take(n).last() == cs[i]);
    } else {
        lemma_prefix_failure(cs, i, n - 1);
    }
}

fn validate_index_name(index_name: &String) -> (r: Result<(), SqlError>)
    ensures
        match r {
            Ok(_) => index_name_check(index_name@) is Ok,
            Err(e) => index_name_check(index_name@) == Err::<(), SpecSqlError>(e@),
        },
{
    if index_name.as_str().is_empty() {
        return Err(SqlError::translation("Index name cannot be empty"));
    }
    let cs = chars_of(index_name.as_str());
    let mut i: usize = 0;
    while i < cs.len()
        invariant
            cs@ == index_name@,
            i <= cs@.len(),
            forall|k: int| 0 <= k < i ==> !is_whitespace(#[trigger] cs@[k]) && !is_control(cs@[k]),
        decreases cs@.len() - i,
    {
        if char_is_whitespace(cs[i]) || char_is_control(cs[i]) {
            assert(is_whitespace(index_name@[i as int]) || is_control(index_name@[i as int]));
            return Err(
                SqlError::translation("Index name cannot contain whitespace or control characters"),
            );
        }
        i = i + 1;
    }
    Ok(())
}

fn validate_condition(condition: &Condition, depth: usize) -> (r: Result<(), SqlError>)
    requires
        depth <= MAX_NESTING_DEPTH + 1,
    ensures
        match r {
            Ok(_) => condition_check(condition@, depth as nat) is Ok,
            Err(e) => condition_check(condition@, depth as nat) == Err::<(), SpecSqlError>(e@),
        },
    decreases condition,
{
    if depth > MAX_NESTING_DEPTH {
        return Err(SqlError::translation("Query exceeds maximum nesting depth of 32"));
    }
    match condition {
        Condition::In { values, .. } => {
            if values.len() > MAX_IN_VALUES {
                Err(SqlError::translation("IN clause exceeds maximum of 1000 values"))
            } else {
                Ok(())
            }
        },
        Condition::And(left, right) | Condition::Or(left, right) => {
            validate_condition(left, depth + 1)?;
            validate_condition(right, depth + 1)
        },
        Condition::Not(inner) => validate_condition(inner, depth + 1),
        _ => Ok(()),
    }
}

} // verus!
