//! ORDER BY (with vector search), LIMIT/OFFSET and the OPTION weights.

use vstd::prelude::*;
use crate::sql_parser::ast::{
    DistanceMetric, HybridSearch, Limit, OrderBy, OrderByColumn, SelectQuery, SortDirection,
    SpecHybridSearch, SpecOrderByColumn, SpecSelectQuery, SpecVectorSearch, VectorSearch,
};
use crate::sql_parser::error::{ErrorCategory, SpecSqlError, SqlError, plain_error};
use crate::sql_parser::number::{Number, SpecNumber, half, parse_unsigned, parse_unsigned_exec};
use crate::sql_parser::parser::aggregates::str_eq;
use crate::sql_parser::parser::expressions::{
    concat, extract_identifier, identifier_of, syntax_err, translation_err, unsupported_err,
};
use crate::sql_parser::parser::syntax::{
    SqlBinaryOpKind, SqlExpr, SqlExprKind, SqlOrderByExpr, SqlValue,
};
use crate::sql_parser::text::{chars_of, push_str};
use crate::sql_parser::translator::{join, join_strings};
use crate::sql_parser::ast::strings_view;

verus! {

/// Parsed OPTION clause values.
#[derive(Debug, Clone)]
pub struct QueryOptions {
    /// Weight for vector scoring (0.0 to 1.0).
    pub vector_weight: Option<Number>,
    /// Weight for text scoring (0.0 to 1.0).
    pub text_weight: Option<Number>,
}

pub struct SpecQueryOptions {
    pub vector_weight: Option<SpecNumber>,
    pub text_weight: Option<SpecNumber>,
}

pub open spec fn number_opt_view(n: Option<Number>) -> Option<SpecNumber> {
    match n {
        Some(x) => Some(x@),
        None => None,
    }
}

impl View for QueryOptions {
    type V = SpecQueryOptions;

    open spec fn view(&self) -> SpecQueryOptions {
        SpecQueryOptions {
            vector_weight: number_opt_view(self.vector_weight),
            text_weight: number_opt_view(self.text_weight),
        }
    }
}

impl QueryOptions {
    /// No weight given.
    pub fn new() -> (o: QueryOptions)
        ensures
            o@.vector_weight is None,
            o@.text_weight is None,
    {
        QueryOptions { vector_weight: None, text_weight: None }
    }
}

/// The parts of a custom operator name, joined.
pub open spec fn joined_parts(parts: Seq<String>) -> Seq<char>
    decreases parts.len(),
{
    if parts.len() == 0 {
        Seq::empty()
    } else {
        joined_parts(parts.drop_last()) + parts.last()@
    }
}

/// The distance metric of a vector distance operator: `<->` (L2), `<=>`
/// (cosine), `<#>` (inner product).
pub open spec fn metric_of(op: SqlBinaryOpKind) -> Option<DistanceMetric> {
    match op {
        SqlBinaryOpKind::Spaceship => Some(DistanceMetric::Cosine),
        SqlBinaryOpKind::Custom(s) => if s@ == "<->"@ {
            Some(DistanceMetric::L2)
        } else if s@ == "<#>"@ {
            Some(DistanceMetric::InnerProduct)
        } else {
            None
        },
        SqlBinaryOpKind::PgCustom(parts) => {
            let name = joined_parts(parts@);
            if name == "<->"@ {
                Some(DistanceMetric::L2)
            } else if name == "<=>"@ {
                Some(DistanceMetric::Cosine)
            } else if name == "<#>"@ {
                Some(DistanceMetric::InnerProduct)
            } else {
                None
            }
        },
        _ => None,
    }
}

/// The numeric literals of an array, or an error if one element is not a number.
pub open spec fn number_texts(es: Seq<SqlExpr>) -> Result<Seq<Seq<char>>, SpecSqlError>
    decreases es.len(),
{
    if es.len() == 0 {
        Ok(Seq::empty())
    } else {
        match number_texts(es.drop_last()) {
            Err(err) => Err(err),
            Ok(ns) => match es.last().kind {
                SqlExprKind::Literal(SqlValue::Number(n)) => Ok(ns.push(n@)),
                _ => translation_err("Vector elements must be numbers"@),
            },
        }
    }
}

/// The text of a query vector: a quoted string as written, or an array of
/// numbers as `[n,n,...]`.
pub open spec fn vector_text(e: SqlExpr) -> Result<Seq<char>, SpecSqlError> {
    match e.kind {
        SqlExprKind::Literal(SqlValue::SingleQuoted(s)) => Ok(s@),
        SqlExprKind::Literal(SqlValue::DoubleQuoted(s)) => Ok(s@),
        SqlExprKind::Array(elems) => match number_texts(elems@) {
            Err(err) => Err(err),
            Ok(ns) => Ok("["@ + join(ns, ","@) + "]"@),
        },
        _ => translation_err("Expected vector value (string or array), got: "@ + e.debug@),
    }
}

/// The K of a vector search: the LIMIT, 10 by default.
pub open spec fn knn_k(limit: Option<usize>) -> usize {
    match limit {
        Some(k) => k,
        None => 10,
    }
}

/// The vector search an ORDER BY expression stands for, if it is a distance.
pub open spec fn vector_search_of(e: SqlExpr, limit: Option<usize>) -> Result<
    Option<SpecVectorSearch>,
    SpecSqlError,
> {
    match e.kind {
        SqlExprKind::BinaryOp { left, op, right } => match metric_of(op.kind) {
            None => Ok(None),
            Some(m) => match identifier_of(*left) {
                Err(err) => Err(err),
                Ok(field) => match vector_text(*right) {
                    Err(err) => Err(err),
                    Ok(v) => Ok(
                        Some(
                            SpecVectorSearch {
                                field,
                                vector: v,
                                k: knn_k(limit),
                                distance_metric: m,
                            },
                        ),
                    ),
                },
            },
        },
        _ => Ok(None),
    }
}

/// Ascending unless DESC is given.
pub open spec fn direction_of(asc: Option<bool>) -> SortDirection {
    match asc {
        Some(false) => SortDirection::Desc,
        _ => SortDirection::Asc,
    }
}

/// The ORDER BY columns, or the first error.
pub open spec fn order_columns(os: Seq<SqlOrderByExpr>) -> Result<Seq<SpecOrderByColumn>, SpecSqlError>
    decreases os.len(),
{
    if os.len() == 0 {
        Ok(Seq::empty())
    } else {
        match order_columns(os.drop_last()) {
            Err(err) => Err(err),
            Ok(cs) => match identifier_of(os.last().expr) {
                Err(err) => Err(err),
                Ok(field) => Ok(
                    cs.push(SpecOrderByColumn { field, direction: direction_of(os.last().asc) }),
                ),
            },
        }
    }
}

/// ORDER BY: either a vector search (alone) or sort columns.
pub open spec fn order_by_of(os: Seq<SqlOrderByExpr>, limit: Option<usize>) -> Result<
    (Option<Seq<SpecOrderByColumn>>, Option<SpecVectorSearch>),
    SpecSqlError,
> {
    if os.len() == 0 {
        Ok((None, None))
    } else {
        match vector_search_of(os[0].expr, limit) {
            Err(err) => Err(err),
            Ok(Some(v)) => if os.len() > 1 {
                unsupported_err("Multiple ORDER BY columns are not supported with vector search"@)
            } else {
                Ok((None, Some(v)))
            },
            Ok(None) => match order_columns(os) {
                Err(err) => Err(err),
                Ok(cs) => Ok((Some(cs), None)),
            },
        }
    }
}

/// A LIMIT or OFFSET value: an unsigned 64-bit integer literal.
pub open spec fn limit_value_of(e: SqlExpr) -> Result<u64, SpecSqlError> {
    match e.kind {
        SqlExprKind::Literal(SqlValue::Number(n)) => match parse_unsigned(n@, u64::MAX as nat) {
            Some(v) => Ok(v as u64),
            None => translation_err("Invalid LIMIT value: "@ + n@),
        },
        _ => translation_err("LIMIT value must be a number"@),
    }
}

/// LIMIT/OFFSET; the count is read before the offset, which defaults to 0.
pub open spec fn limit_of(limit: Option<SqlExpr>, offset: Option<SqlExpr>) -> Result<
    Option<Limit>,
    SpecSqlError,
> {
    match limit {
        None => Ok(None),
        Some(l) => match limit_value_of(l) {
            Err(err) => Err(err),
            Ok(count) => match offset {
                None => Ok(Some(Limit { count, offset: 0 })),
                Some(o) => match limit_value_of(o) {
                    Err(err) => Err(err),
                    Ok(off) => Ok(Some(Limit { count, offset: off })),
                },
            },
        },
    }
}

pub open spec fn weight_or_half(w: Option<SpecNumber>) -> SpecNumber {
    match w {
        Some(x) => x,
        None => half(),
    }
}

/// The query with its vector search turned into a hybrid search when the
/// OPTION clause gives a weight; each missing weight is one half.
pub open spec fn with_hybrid(q: SpecSelectQuery, o: SpecQueryOptions) -> Result<SpecSelectQuery, SpecSqlError> {
    if o.vector_weight is None && o.text_weight is None {
        Ok(q)
    } else {
        match q.vector_search {
            None => syntax_err(
                "OPTION with weights requires a vector search (ORDER BY field <-> vector)"@,
            ),
            Some(v) => Ok(
                SpecSelectQuery {
                    vector_search: None,
                    hybrid_search: Some(
                        SpecHybridSearch {
                            vector: v,
                            vector_weight: weight_or_half(o.vector_weight),
                            text_weight: weight_or_half(o.text_weight),
                        },
                    ),
                    ..q
                },
            ),
        }
    }
}

fn joined_parts_string(parts: &Vec<String>) -> (s: String)
    ensures
        s@ == joined_parts(parts@),
{
    let mut s = String::new();
    let mut i: usize = 0;
    while i < parts.len()
        invariant
            i <= parts@.len(),
            s@ == joined_parts(parts@.take(i as int)),
        decreases parts@.len() - i,
    {
        assert(parts@.take(i + 1).drop_last() == parts@.take(i as int));
        push_str(&mut s, parts[i].as_str());
        i = i + 1;
    }
    assert(parts@.take(parts@.len() as int) == parts@);
    s
}

/// The distance metric of a vector distance operator.
pub fn get_vector_distance_metric(op: &SqlBinaryOpKind) -> (m: Option<DistanceMetric>)
    ensures
        m == metric_of(*op),
{
    proof {
        reveal_strlit("<->");
        reveal_strlit("<=>");
        reveal_strlit("<#>");
    }
    match op {
        SqlBinaryOpKind::Spaceship => Some(DistanceMetric::Cosine),
        SqlBinaryOpKind::Custom(s) => {
            if str_eq(s.as_str(), "<->") {
                Some(DistanceMetric::L2)
            } else if str_eq(s.as_str(), "<#>") {
                Some(DistanceMetric::InnerProduct)
            } else {
                None
            }
        },
        SqlBinaryOpKind::PgCustom(parts) => {
            let name = joined_parts_string(parts);
            if str_eq(name.as_str(), "<->") {
                Some(DistanceMetric::L2)
            } else if str_eq(name.as_str(), "<=>") {
                Some(DistanceMetric::Cosine)
            } else if str_eq(name.as_str(), "<#>") {
                Some(DistanceMetric::InnerProduct)
            } else {
                None
            }
        },
        _ => None,
    }
}

/// Extracts a vector value: a quoted string, or an array of numbers.
pub fn extract_vector_value(expr: &SqlExpr) -> (r: Result<String, SqlError>)
    ensures
        match r {
            Ok(s) => vector_text(*expr) == Ok::<Seq<char>, SpecSqlError>(s@),
            Err(e) => vector_text(*expr) == Err::<Seq<char>, SpecSqlError>(e@),
        },
{
    match &expr.kind {
        SqlExprKind::Literal(SqlValue::SingleQuoted(s)) => Ok(s.clone()),
        SqlExprKind::Literal(SqlValue::DoubleQuoted(s)) => Ok(s.clone()),
        SqlExprKind::Array(elems) => {
            let mut numbers: Vec<String> = Vec::new();
            assert(elems@.take(0) =~= Seq::<SqlExpr>::empty());
            assert(strings_view(numbers@) =~= Seq::<Seq<char>>::empty());
            let mut i: usize = 0;
            while i < elems.len()
                invariant
                    i <= elems@.len(),
                    *expr == (SqlExpr { kind: SqlExprKind::Array(*elems), debug: expr.debug }),
                    number_texts(elems@.take(i as int)) == Ok::<Seq<Seq<char>>, SpecSqlError>(
                        strings_view(numbers@),
                    ),
                decreases elems@.len() - i,
            {
                assert(elems@.take(i + 1).drop_last() == elems@.take(i as int));
                assert(elems@.take(i + 1).last() == elems@[i as int]);
                let ghost before = numbers@;
                match &elems[i].kind {
                    SqlExprKind::Literal(SqlValue::Number(n)) => {
                        numbers.push(n.clone());
                        assert(strings_view(numbers@) =~= strings_view(before).push(
                            numbers@.last()@,
                        ));
                    },
                    _ => {
                        proof {
                            lemma_number_texts_error(elems@, i as int);
                        }
                        return Err(SqlError::translation("Vector elements must be numbers"));
                    },
                }
                i = i + 1;
            }
            assert(elems@.take(elems@.len() as int) == elems@);
            let joined = join_strings(&numbers, ",");
            let mut s = String::from_str("[");
            push_str(&mut s, joined.as_str());
            push_str(&mut s, "]");
            Ok(s)
        },
        _ => Err(
            SqlError::translation(
                concat("Expected vector value (string or array), got: ", expr.debug.as_str()),
            ),
        ),
    }
}

proof fn lemma_number_texts_error(es: Seq<SqlExpr>, i: int)
    requires
        0 <= i < es.len(),
        number_texts(es.take(i)) is Ok,
        !(es[i].kind matches SqlExprKind::Literal(SqlValue::Number(_))),
    ensures
        number_texts(es) == translation_err::<Seq<Seq<char>>>("Vector elements must be numbers"@),
    decreases es.len() - i,
{
    if i == es.len() - 1 {
        assert(es.drop_last() == es.take(i));
    } else {
        assert(es.drop_last().take(i) == es.take(i));
        lemma_number_texts_error(es.drop_last(), i);
        assert(es.drop_last()[i] == es[i]);
    }
}

/// The vector search of an ORDER BY expression, if it is a distance.
pub fn try_parse_vector_order_by(expr: &SqlExpr, limit: Option<usize>) -> (r: Result<
    Option<VectorSearch>,
    SqlError,
>)
    ensures
        match r {
            Ok(v) => vector_search_of(*expr, limit) == Ok::<Option<SpecVectorSearch>, SpecSqlError>(
                match v {
                    Some(x) => Some(x@),
                    None => None,
                },
            ),
            Err(e) => vector_search_of(*expr, limit) == Err::<
                Option<SpecVectorSearch>,
                SpecSqlError,
            >(e@),
        },
{
    match &expr.kind {
        SqlExprKind::BinaryOp { left, op, right } => {
            let distance_metric = match get_vector_distance_metric(&op.kind) {
                Some(m) => m,
                None => {
                    return Ok(None);
                },
            };
            let field = extract_identifier(left)?;
            let vector = extract_vector_value(right)?;
            let k = match limit {
                Some(k) => k,
                None => 10,
            };
            Ok(Some(VectorSearch { field, vector, k, distance_metric }))
        },
        _ => Ok(None),
    }
}

proof fn lemma_order_columns_error(os: Seq<SqlOrderByExpr>, i: int)
    requires
        0 <= i < os.len(),
        order_columns(os.take(i)) is Ok,
        identifier_of(os[i].expr) is Err,
    ensures
        order_columns(os) == Err::<Seq<SpecOrderByColumn>, SpecSqlError>(
            identifier_of(os[i].expr)->Err_0,
        ),
    decreases os.len() - i,
{
    if i == os.len() - 1 {
        assert(os.drop_last() == os.take(i));
    } else {
        assert(os.drop_last().take(i) == os.take(i));
        lemma_order_columns_error(os.drop_last(), i);
        assert(os.drop_last()[i] == os[i]);
    }
}

/// Result of parsing ORDER BY clause.
pub struct OrderByResult {
    /// Standard ORDER BY clause.
    pub order_by: Option<OrderBy>,
    /// Vector search extracted from ORDER BY field <-> 'vector'.
    pub vector_search: Option<VectorSearch>,
}

pub open spec fn order_by_result_view(r: OrderByResult) -> (
    Option<Seq<SpecOrderByColumn>>,
    Option<SpecVectorSearch>,
) {
    (
        match r.order_by {
            Some(o) => Some(o@),
            None => None,
        },
        match r.vector_search {
            Some(v) => Some(v@),
            None => None,
        },
    )
}

/// Parses ORDER BY: a vector distance first, or plain sort columns.
pub fn parse_order_by(order_by: &Vec<SqlOrderByExpr>, limit: Option<usize>) -> (r: Result<
    OrderByResult,
    SqlError,
>)
    ensures
        match r {
            Ok(o) => order_by_of(order_by@, limit) == Ok::<
                (Option<Seq<SpecOrderByColumn>>, Option<SpecVectorSearch>),
                SpecSqlError,
            >(order_by_result_view(o)),
            Err(e) => order_by_of(order_by@, limit) == Err::<
                (Option<Seq<SpecOrderByColumn>>, Option<SpecVectorSearch>),
                SpecSqlError,
            >(e@),
        },
{
    if order_by.len() == 0 {
        return Ok(OrderByResult { order_by: None, vector_search: None });
    }
    match try_parse_vector_order_by(&order_by[0].expr, limit)? {
        Some(vector_search) => {
            if order_by.len() > 1 {
                return Err(
                    SqlError::unsupported(
                        "Multiple ORDER BY columns are not supported with vector search",
                    ),
                );
            }
            return Ok(OrderByResult { order_by: None, vector_search: Some(vector_search) });
        },
        None => {},
    }
    let mut columns: Vec<OrderByColumn> = Vec::new();
    assert(order_by@.take(0) =~= Seq::<SqlOrderByExpr>::empty());
    assert(columns@.map_values(|c: OrderByColumn| c@) =~= Seq::<SpecOrderByColumn>::empty());
    let mut i: usize = 0;
    while i < order_by.len()
        invariant
            i <= order_by@.len(),
            order_by@.len() > 0,
            vector_search_of(order_by@[0].expr, limit) == Ok::<
                Option<SpecVectorSearch>,
                SpecSqlError,
            >(None),
            order_columns(order_by@.take(i as int)) == Ok::<Seq<SpecOrderByColumn>, SpecSqlError>(
                columns@.map_values(|c: OrderByColumn| c@),
            ),
        decreases order_by@.len() - i,
    {
        assert(order_by@.take(i + 1).drop_last() == order_by@.take(i as int));
        assert(order_by@.take(i + 1).last() == order_by@[i as int]);
        let ghost before = columns@;
        match extract_identifier(&order_by[i].expr) {
            Ok(field) => {
                let direction = match order_by[i].asc {
                    Some(false) => SortDirection::Desc,
                    _ => SortDirection::Asc,
                };
                columns.push(OrderByColumn { field, direction });
                assert(columns@.map_values(|c: OrderByColumn| c@) =~= before.map_values(
                    |c: OrderByColumn| c@,
                ).push(columns@.last()@));
            },
            Err(e) => {
                proof {
                    lemma_order_columns_error(order_by@, i as int);
                }
                return Err(e);
            },
        }
        i = i + 1;
    }
    assert(order_by@.take(order_by@.len() as int) == order_by@);
    let ob = OrderBy { columns };
    assert(ob@ == columns@.map_values(|c: OrderByColumn| c@));
    Ok(OrderByResult { order_by: Some(ob), vector_search: None })
}

/// Reads a LIMIT or OFFSET value.
pub fn extract_limit_value(expr: &SqlExpr) -> (r: Result<u64, SqlError>)
    ensures
        match r {
            Ok(v) => limit_value_of(*expr) == Ok::<u64, SpecSqlError>(v),
            Err(e) => limit_value_of(*expr) == Err::<u64, SpecSqlError>(e@),
        },
{
    match &expr.kind {
        SqlExprKind::Literal(SqlValue::Number(n)) => {
            let cs = chars_of(n.as_str());
            match parse_unsigned_exec(cs.as_slice(), 0xffff_ffff_ffff_ffff) {
                Some(v) => Ok(v),
                None => Err(SqlError::translation(concat("Invalid LIMIT value: ", n.as_str()))),
            }
        },
        _ => Err(SqlError::translation("LIMIT value must be a number")),
    }
}

/// Parses LIMIT and OFFSET.
pub fn parse_limit(limit: Option<&SqlExpr>, offset: Option<&SqlExpr>) -> (r: Result<
    Option<Limit>,
    SqlError,
>)
    ensures
        match r {
            Ok(l) => limit_of(
                match limit {
                    Some(e) => Some(*e),
                    None => None,
                },
                match offset {
                    Some(e) => Some(*e),
                    None => None,
                },
            ) == Ok::<Option<Limit>, SpecSqlError>(l),
            Err(e) => limit_of(
                match limit {
                    Some(e) => Some(*e),
                    None => None,
                },
                match offset {
                    Some(e) => Some(*e),
                    None => None,
                },
            ) == Err::<Option<Limit>, SpecSqlError>(e@),
        },
{
    let count = match limit {
        Some(expr) => extract_limit_value(expr)?,
        None => {
            return Ok(None);
        },
    };
    let offset_value = match offset {
        Some(off) => extract_limit_value(off)?,
        None => 0,
    };
    Ok(Some(Limit { count, offset: offset_value }))
}

fn weight_or_default(w: &Option<Number>) -> (n: Number)
    ensures
        n@ == weight_or_half(number_opt_view(*w)),
{
    match w {
        Some(x) => x.duplicate(),
        None => Number::half(),
    }
}

/// Turns the vector search into a hybrid search when OPTION gives a weight.
pub fn apply_hybrid_options(query: &mut SelectQuery, options: &QueryOptions) -> (r: Result<
    (),
    SqlError,
>)
    ensures
        match r {
            Ok(_) => with_hybrid(old(query)@, options@) == Ok::<SpecSelectQuery, SpecSqlError>(
                final(query)@,
            ),
            Err(e) => with_hybrid(old(query)@, options@) == Err::<SpecSelectQuery, SpecSqlError>(
                e@,
            ),
        },
{
    if options.vector_weight.is_none() && options.text_weight.is_none() {
        return Ok(());
    }
    let vector_search = match query.vector_search.take() {
        Some(vs) => vs,
        None => {
            return Err(
                SqlError::syntax(
                    "OPTION with weights requires a vector search (ORDER BY field <-> vector)",
                ),
            );
        },
    };
    let vector_weight = weight_or_default(&options.vector_weight);
    let text_weight = weight_or_default(&options.text_weight);
    query.hybrid_search = Some(HybridSearch { vector: vector_search, vector_weight, text_weight });
    Ok(())
}

} // verus!
