//! SQL text to the internal AST.
//!
//! The OPTION clause is split off and the index name quoted where needed
//! (`preprocessor`), `sqlparser` parses the rest (`syntax`), and the syntax
//! tree is read into a `SelectQuery` (`select`, `expressions`, `aggregates`,
//! `options`).

pub mod syntax;
pub mod expressions;
pub mod aggregates;
pub mod options;
pub mod select;
pub mod preprocessor;

use vstd::prelude::*;
use crate::sql_parser::ast::{SelectQuery, SpecSelectQuery};
use crate::sql_parser::error::{SpecSqlError, SqlError};
use crate::sql_parser::parser::expressions::{syntax_err, unsupported_err};
use crate::sql_parser::parser::options::{QueryOptions, SpecQueryOptions, apply_hybrid_options, with_hybrid};
use crate::sql_parser::parser::preprocessor::{
    extract_option_clause, option_scannable, option_search_splits, option_split,
    quote_nonstandard_from_identifier, quoted_from,
};
use crate::sql_parser::parser::select::{parse_statement, statement_query};
use crate::sql_parser::parser::syntax::{SqlStatement, parse_sql, parser_safe, parser_safe_text, postgres_parse};

verus! {

/// The query of the parsed statements: there must be exactly one, a SELECT;
/// the OPTION weights then turn its vector search into a hybrid search.
pub open spec fn statements_query(statements: Seq<SqlStatement>, options: SpecQueryOptions) -> Result<
    SpecSelectQuery,
    SpecSqlError,
> {
    if statements.len() == 0 {
        syntax_err("Empty query"@)
    } else if statements.len() > 1 {
        unsupported_err("Multiple statements are not supported"@)
    } else {
        match statement_query(statements[0]) {
            Err(err) => Err(err),
            Ok(q) => with_hybrid(q, options),
        }
    }
}

/// The query that SQL text stands for.
pub open spec fn parse_spec(sql: Seq<char>) -> Result<SpecSelectQuery, SpecSqlError> {
    match option_split(sql) {
        Err(err) => Err(err),
        Ok(split) => match postgres_parse(quoted_from(split.0)) {
            Err(message) => syntax_err(message),
            Ok(statements) => statements_query(statements, split.1),
        },
    }
}

/// Reads the statements that `sqlparser` gave into the internal query.
pub fn query_from_statements(statements: Vec<SqlStatement>, options: &QueryOptions) -> (r: Result<
    SelectQuery,
    SqlError,
>)
    ensures
        match r {
            Ok(q) => statements_query(statements@, options@) == Ok::<SpecSelectQuery, SpecSqlError>(
                q@,
            ),
            Err(e) => statements_query(statements@, options@) == Err::<
                SpecSelectQuery,
                SpecSqlError,
            >(e@),
        },
{
    if statements.len() == 0 {
        return Err(SqlError::syntax("Empty query"));
    }
    if statements.len() > 1 {
        return Err(SqlError::unsupported("Multiple statements are not supported"));
    }
    let mut query = parse_statement(&statements[0])?;
    apply_hybrid_options(&mut query, options)?;
    Ok(query)
}

/// Whether the text can be parsed without a panic: searching it for OPTION
/// cuts no character, and the text handed to `sqlparser` (without its OPTION
/// clause, the index name quoted) holds no statement that it panics on.
pub open spec fn parse_ready(s: Seq<char>) -> bool {
    &&& option_scannable(s)
    &&& option_split(s) matches Ok((rest, _)) ==> parser_safe(quoted_from(rest))
}

/// Whether parsing the text would panic (see `parse_ready`).
pub fn parse_would_panic(sql: &str) -> (r: bool)
    ensures
        r == !parse_ready(sql@),
{
    if option_search_splits(sql) {
        return true;
    }
    match extract_option_clause(sql) {
        Ok((rest, _)) => {
            let quoted = quote_nonstandard_from_identifier(rest.as_str());
            !parser_safe_text(quoted.as_str())
        },
        Err(_) => false,
    }
}

/// Parses a SQL query string into the internal AST.
pub fn parse(sql: &str) -> (r: Result<SelectQuery, SqlError>)
    requires
        parse_ready(sql@),
    ensures
        match r {
            Ok(q) => parse_spec(sql@) == Ok::<SpecSelectQuery, SpecSqlError>(q@),
            Err(e) => parse_spec(sql@) == Err::<SpecSelectQuery, SpecSqlError>(e@),
        },
{
    let (sql_without_options, options) = extract_option_clause(sql)?;
    let sql_for_parser = quote_nonstandard_from_identifier(sql_without_options.as_str());
    let statements = match parse_sql(sql_for_parser.as_str()) {
        Ok(v) => v,
        Err(message) => {
            return Err(SqlError::syntax(message));
        },
    };
    query_from_statements(statements, &options)
}

} // verus!
