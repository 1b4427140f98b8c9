//! A SELECT statement to the internal query.

use vstd::prelude::*;
use crate::sql_parser::ast::{
    AggregateExpr, Condition, GroupBy, SelectField, SelectQuery, SpecAggregateExpr, SpecCondition,
    SpecOrderByColumn, SpecSelectField, SpecSelectQuery, SpecVectorSearch, Limit,
};
use crate::sql_parser::error::{ErrorCategory, SpecSqlError, SqlError, plain_error};
use crate::sql_parser::parser::aggregates::{
    aggregate_of, group_by_fields, having_of, parse_aggregate_function, parse_group_by,
    parse_having_expression,
};
use crate::sql_parser::parser::expressions::{
    concat, extract_identifier, identifier_of, parse_where_clause, syntax_err, unsupported_err,
    where_conditions,
};
use crate::sql_parser::parser::options::{OrderByResult, limit_of, order_by_of, order_by_result_view, parse_limit, parse_order_by};
use crate::sql_parser::parser::syntax::{
    SqlExpr, SqlExprKind, SqlQuery, SqlSelect, SqlSelectItem, SqlSetExpr, SqlStatement,
    SqlTableWithJoins,
};
use crate::sql_parser::text::chars_of;
use crate::sql_parser::translator::{aggregates_view, conditions_view, fields_view};

verus! {

/// The SELECT list read from item `i` on, after `fields` and `aggregates`
/// were read from the items before it. A `*` stands for all fields and drops
/// what came before it.
pub open spec fn select_items_from(
    items: Seq<SqlSelectItem>,
    i: int,
    fields: Seq<SpecSelectField>,
    aggregates: Seq<SpecAggregateExpr>,
) -> Result<(Seq<SpecSelectField>, Seq<SpecAggregateExpr>), SpecSqlError>
    decreases items.len() - i,
{
    if i < 0 || i >= items.len() {
        Ok((fields, aggregates))
    } else {
        match items[i] {
            SqlSelectItem::Wildcard => Ok((Seq::empty(), Seq::empty())),
            SqlSelectItem::Unnamed(e) => match e.kind {
                SqlExprKind::Function(f) => match aggregate_of(f, None) {
                    Err(err) => Err(err),
                    Ok(Some(a)) => select_items_from(items, i + 1, fields, aggregates.push(a)),
                    Ok(None) => unsupported_err("Unsupported function in SELECT: "@ + f.name@),
                },
                _ => match identifier_of(e) {
                    Err(err) => Err(err),
                    Ok(name) => select_items_from(
                        items,
                        i + 1,
                        fields.push(SpecSelectField { name, alias: None }),
                        aggregates,
                    ),
                },
            },
            SqlSelectItem::Aliased { expr, alias } => match expr.kind {
                SqlExprKind::Function(f) => match aggregate_of(f, Some(alias@)) {
                    Err(err) => Err(err),
                    Ok(Some(a)) => select_items_from(items, i + 1, fields, aggregates.push(a)),
                    Ok(None) => unsupported_err("Unsupported function in SELECT: "@ + f.name@),
                },
                _ => match identifier_of(expr) {
                    Err(err) => Err(err),
                    Ok(name) => select_items_from(
                        items,
                        i + 1,
                        fields.push(SpecSelectField { name, alias: Some(alias@) }),
                        aggregates,
                    ),
                },
            },
            SqlSelectItem::Other(d) => unsupported_err("Unsupported SELECT item: "@ + d@),
        }
    }
}

/// A relation name with one pair of surrounding double quotes removed.
pub open spec fn relation_name(name: Seq<char>) -> Seq<char> {
    if name.len() >= 2 && name[0] == '"' && name.last() == '"' {
        name.subrange(1, name.len() - 1)
    } else {
        name
    }
}

/// The index named by the FROM clause: exactly one plain table, no join.
pub open spec fn index_of(from: Seq<SqlTableWithJoins>) -> Result<Seq<char>, SpecSqlError> {
    if from.len() == 0 {
        syntax_err("FROM clause is required"@)
    } else if from.len() > 1 || from[0].joins > 0 {
        unsupported_err("JOINs are not supported in Phase 1"@)
    } else {
        match from[0].table_name {
            Some(n) => Ok(relation_name(n@)),
            None => unsupported_err("Only simple table references are supported"@),
        }
    }
}

pub open spec fn selection_of(selection: Option<SqlExpr>) -> Result<Seq<SpecCondition>, SpecSqlError> {
    match selection {
        Some(e) => where_conditions(e),
        None => Ok(Seq::empty()),
    }
}

pub open spec fn having_clause_of(having: Option<SqlExpr>) -> Result<Option<SpecCondition>, SpecSqlError> {
    match having {
        Some(e) => match having_of(e) {
            Err(err) => Err(err),
            Ok(c) => Ok(Some(c)),
        },
        None => Ok(None),
    }
}

pub open spec fn limit_k(limit: Option<Limit>) -> Option<usize> {
    match limit {
        Some(l) => Some(l.count as usize),
        None => None,
    }
}

pub open spec fn ordering_of(q: SqlQuery, limit: Option<Limit>) -> Result<
    (Option<Seq<SpecOrderByColumn>>, Option<SpecVectorSearch>),
    SpecSqlError,
> {
    match q.order_by {
        Some(os) => order_by_of(os@, limit_k(limit)),
        None => Ok((None, None)),
    }
}

/// The clauses after the SELECT list, in the order they are read: FROM,
/// WHERE, GROUP BY, HAVING, LIMIT, ORDER BY.
pub open spec fn select_clauses(
    q: SqlQuery,
    sel: SqlSelect,
    fields: Seq<SpecSelectField>,
    aggregates: Seq<SpecAggregateExpr>,
) -> Result<SpecSelectQuery, SpecSqlError> {
    match index_of(sel.from@) {
        Err(err) => Err(err),
        Ok(index_name) => match selection_of(sel.selection) {
            Err(err) => Err(err),
            Ok(conditions) => match group_by_fields(sel.group_by) {
                Err(err) => Err(err),
                Ok(group_by) => match having_clause_of(sel.having) {
                    Err(err) => Err(err),
                    Ok(having) => match limit_of(q.limit, q.offset) {
                        Err(err) => Err(err),
                        Ok(limit) => match ordering_of(q, limit) {
                            Err(err) => Err(err),
                            Ok(ordering) => Ok(
                                SpecSelectQuery {
                                    fields,
                                    index_name,
                                    conditions,
                                    order_by: ordering.0,
                                    limit,
                                    distinct: sel.distinct_on == Some(false),
                                    aggregates,
                                    group_by,
                                    having,
                                    vector_search: ordering.1,
                                    hybrid_search: None,
                                },
                            ),
                        },
                    },
                },
            },
        },
    }
}

/// The query a statement stands for: a single SELECT.
pub open spec fn statement_query(s: SqlStatement) -> Result<SpecSelectQuery, SpecSqlError> {
    match s {
        SqlStatement::Query(q) => match q.body {
            SqlSetExpr::Select(sel) => if sel.distinct_on == Some(true) {
                unsupported_err("DISTINCT ON is not supported, use DISTINCT instead"@)
            } else {
                match select_items_from(sel.projection@, 0, Seq::empty(), Seq::empty()) {
                    Err(err) => Err(err),
                    Ok(items) => select_clauses(q, sel, items.0, items.1),
                }
            },
            SqlSetExpr::Other => unsupported_err("Only SELECT queries are supported"@),
        },
        SqlStatement::Other => unsupported_err("Only SELECT statements are supported"@),
    }
}

/// Result of parsing SELECT items.
pub struct SelectItemsResult {
    pub fields: Vec<SelectField>,
    pub aggregates: Vec<AggregateExpr>,
}

fn unsupported_function(name: &String) -> (e: SqlError)
    ensures
        e@ == plain_error(ErrorCategory::Unsupported, "Unsupported function in SELECT: "@ + name@),
{
    SqlError::unsupported(concat("Unsupported function in SELECT: ", name.as_str()))
}

/// Parses the SELECT list into fields and aggregates.
pub fn parse_select_items(items: &Vec<SqlSelectItem>) -> (r: Result<SelectItemsResult, SqlError>)
    ensures
        match r {
            Ok(res) => select_items_from(items@, 0, Seq::empty(), Seq::empty()) == Ok::<
                (Seq<SpecSelectField>, Seq<SpecAggregateExpr>),
                SpecSqlError,
            >((fields_view(res.fields@), aggregates_view(res.aggregates@))),
            Err(e) => select_items_from(items@, 0, Seq::empty(), Seq::empty()) == Err::<
                (Seq<SpecSelectField>, Seq<SpecAggregateExpr>),
                SpecSqlError,
            >(e@),
        },
{
    let mut fields: Vec<SelectField> = Vec::new();
    let mut aggregates: Vec<AggregateExpr> = Vec::new();
    assert(fields_view(fields@) =~= Seq::<SpecSelectField>::empty());
    assert(aggregates_view(aggregates@) =~= Seq::<SpecAggregateExpr>::empty());
    let mut i: usize = 0;
    while i < items.len()
        invariant
            i <= items@.len(),
            select_items_from(items@, 0, Seq::empty(), Seq::empty()) == select_items_from(
                items@,
                i as int,
                fields_view(fields@),
                aggregates_view(aggregates@),
            ),
        decreases items@.len() - i,
    {
        let ghost fv = fields_view(fields@);
        let ghost av = aggregates_view(aggregates@);
        match &items[i] {
            SqlSelectItem::Wildcard => {
                let fs: Vec<SelectField> = Vec::new();
                let ags: Vec<AggregateExpr> = Vec::new();
                assert(fields_view(fs@) =~= Seq::<SpecSelectField>::empty());
                assert(aggregates_view(ags@) =~= Seq::<SpecAggregateExpr>::empty());
                return Ok(SelectItemsResult { fields: fs, aggregates: ags });
            },
            SqlSelectItem::Unnamed(e) => {
                match &e.kind {
                    SqlExprKind::Function(f) => {
                        match parse_aggregate_function(f, None)? {
                            Some(a) => {
                                aggregates.push(a);
                                assert(aggregates_view(aggregates@) =~= av.push(aggregates@.last()@));
                            },
                            None => {
                                return Err(unsupported_function(&f.name));
                            },
                        }
                    },
                    _ => {
                        let name = extract_identifier(e)?;
                        fields.push(SelectField { name, alias: None });
                        assert(fields_view(fields@) =~= fv.push(fields@.last()@));
                    },
                }
            },
            SqlSelectItem::Aliased { expr, alias } => {
                match &expr.kind {
                    SqlExprKind::Function(f) => {
                        match parse_aggregate_function(f, Some(alias.clone()))? {
                            Some(a) => {
                                aggregates.push(a);
                                assert(aggregates_view(aggregates@) =~= av.push(aggregates@.last()@));
                            },
                            None => {
                                return Err(unsupported_function(&f.name));
                            },
                        }
                    },
                    _ => {
                        let name = extract_identifier(expr)?;
                        fields.push(SelectField { name, alias: Some(alias.clone()) });
                        assert(fields_view(fields@) =~= fv.push(fields@.last()@));
                    },
                }
            },
            SqlSelectItem::Other(d) => {
                return Err(SqlError::unsupported(concat("Unsupported SELECT item: ", d.as_str())));
            },
        }
        i = i + 1;
    }
    Ok(SelectItemsResult { fields, aggregates })
}

/// Removes one pair of surrounding double quotes from a relation name.
pub fn normalize_relation_name(name: &String) -> (r: String)
    ensures
        r@ == relation_name(name@),
{
    let cs = chars_of(name.as_str());
    let n = cs.len();
    if n >= 2 && cs[0] == '"' && cs[n - 1] == '"' {
        crate::sql_parser::text::string_of_range(cs.as_slice(), 1, n - 1)
    } else {
        name.clone()
    }
}

/// Parses the FROM clause into the index name.
pub fn parse_from_clause(from: &Vec<SqlTableWithJoins>) -> (r: Result<String, SqlError>)
    ensures
        match r {
            Ok(s) => index_of(from@) == Ok::<Seq<char>, SpecSqlError>(s@),
            Err(e) => index_of(from@) == Err::<Seq<char>, SpecSqlError>(e@),
        },
{
    if from.len() == 0 {
        return Err(SqlError::syntax("FROM clause is required"));
    }
    if from.len() > 1 {
        return Err(SqlError::unsupported("JOINs are not supported in Phase 1"));
    }
    let table = &from[0];
    if table.joins > 0 {
        return Err(SqlError::unsupported("JOINs are not supported in Phase 1"));
    }
    match &table.table_name {
        Some(name) => Ok(normalize_relation_name(name)),
        None => Err(SqlError::unsupported("Only simple table references are supported")),
    }
}

fn parse_clauses(q: &SqlQuery, sel: &SqlSelect, items: SelectItemsResult) -> (r: Result<
    SelectQuery,
    SqlError,
>)
    ensures
        match r {
            Ok(query) => select_clauses(
                *q,
                *sel,
                fields_view(items.fields@),
                aggregates_view(items.aggregates@),
            ) == Ok::<SpecSelectQuery, SpecSqlError>(query@),
            Err(e) => select_clauses(
                *q,
                *sel,
                fields_view(items.fields@),
                aggregates_view(items.aggregates@),
            ) == Err::<SpecSelectQuery, SpecSqlError>(e@),
        },
{
    let index_name = parse_from_clause(&sel.from)?;
    let conditions = match &sel.selection {
        Some(selection) => parse_where_clause(selection)?,
        None => {
            let v: Vec<Condition> = Vec::new();
            assert(conditions_view(v@) =~= Seq::<SpecCondition>::empty());
            v
        },
    };
    let group_by = parse_group_by(&sel.group_by)?;
    let having = match &sel.having {
        Some(h) => Some(parse_having_expression(h)?),
        None => None,
    };
    let limit = parse_limit(q.limit.as_ref(), q.offset.as_ref())?;
    let k = match limit {
        Some(l) => Some(l.count as usize),
        None => None,
    };
    let ordering = match &q.order_by {
        Some(ob) => parse_order_by(ob, k)?,
        None => OrderByResult { order_by: None, vector_search: None },
    };
    let distinct = match sel.distinct_on {
        Some(on) => !on,
        None => false,
    };
    let query = SelectQuery {
        fields: items.fields,
        index_name,
        conditions,
        order_by: ordering.order_by,
        limit,
        distinct,
        aggregates: items.aggregates,
        group_by,
        having,
        vector_search: ordering.vector_search,
        hybrid_search: None,
    };
    assert(query@.fields == fields_view(query.fields@));
    assert(query@.aggregates == aggregates_view(query.aggregates@));
    Ok(query)
}

/// Parses a statement into the internal query.
pub fn parse_statement(statement: &SqlStatement) -> (r: Result<SelectQuery, SqlError>)
    ensures
        match r {
            Ok(q) => statement_query(*statement) == Ok::<SpecSelectQuery, SpecSqlError>(q@),
            Err(e) => statement_query(*statement) == Err::<SpecSelectQuery, SpecSqlError>(e@),
        },
{
    match statement {
        SqlStatement::Query(query) => {
            let select = match &query.body {
                SqlSetExpr::Select(select) => select,
                SqlSetExpr::Other => {
                    return Err(SqlError::unsupported("Only SELECT queries are supported"));
                },
            };
            if select.distinct_on == Some(true) {
                return Err(
                    SqlError::unsupported("DISTINCT ON is not supported, use DISTINCT instead"),
                );
            }
            let items = parse_select_items(&select.projection)?;
            parse_clauses(query, select, items)
        },
        SqlStatement::Other => Err(SqlError::unsupported("Only SELECT statements are supported")),
    }
}

} // verus!
