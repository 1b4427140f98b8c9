//! SQL AST to RQL conversion.
//!
//! Translates the internal SQL AST into the query string and arguments of an
//! `FT.SEARCH`, `FT.AGGREGATE` or `FT.HYBRID` command.

use vstd::prelude::*;
use crate::sql_parser::ast::{
    AggregateExpr, AggregateFunction, Condition, OrderByColumn, SelectField, SelectQuery,
    SortDirection, SpecAggregateExpr, SpecAggregateFunction, SpecCondition, SpecOrderByColumn,
    SpecSelectField, SpecSelectQuery, SpecValue, Value, aggregate_name, direction_text,
    strings_view, value_text,
};
use crate::sql_parser::error::{ErrorCategory, SpecSqlError, SqlError, plain_error};
use crate::sql_parser::number::{display_text, nat_string, nat_text, rql_text, SpecNumber};
use crate::sql_parser::text::{push_char, push_str};
use crate::sql_parser::{
    Command, FieldCapabilities, QuerySchema, SpecQuerySchema, SpecTranslation, Translation,
    field_caps,
};

verus! {

// ---------------------------------------------------------------------------
// Query strings

/// `parts` joined with `sep` between consecutive parts.
pub open spec fn join(parts: Seq<Seq<char>>, sep: Seq<char>) -> Seq<char>
    decreases parts.len(),
{
    if parts.len() == 0 {
        Seq::empty()
    } else if parts.len() == 1 {
        parts[0]
    } else {
        join(parts.drop_last(), sep) + sep + parts.last()
    }
}

/// Exact match of a field against a value: TAG syntax for strings, a
/// one-point range for numbers.
pub open spec fn equality_text(field: Seq<char>, v: SpecValue) -> Seq<char> {
    match v {
        SpecValue::Str(s) => "@"@ + field + ":{"@ + s + "}"@,
        SpecValue::Num(n) => "@"@ + field + ":["@ + rql_text(n) + " "@ + rql_text(n) + "]"@,
    }
}

pub open spec fn is_string_value(v: SpecValue) -> bool {
    v is Str
}

pub open spec fn all_strings(values: Seq<SpecValue>) -> bool {
    forall|i: int| 0 <= i < values.len() ==> is_string_value(#[trigger] values[i])
}

pub open spec fn negation_prefix(negated: bool) -> Seq<char> {
    if negated {
        "-"@
    } else {
        Seq::empty()
    }
}

/// Membership in a list: one TAG set when every value is a string, otherwise
/// the union of exact matches.
pub open spec fn membership_text(field: Seq<char>, values: Seq<SpecValue>) -> Seq<char> {
    if all_strings(values) {
        "@"@ + field + ":{"@ + join(values.map_values(|v: SpecValue| value_text(v)), "|"@) + "}"@
    } else {
        "("@ + join(values.map_values(|v: SpecValue| equality_text(field, v)), "|"@) + ")"@
    }
}

/// A LIKE pattern in RediSearch wildcard syntax: every `%` becomes `*`.
pub open spec fn wildcard_pattern(p: Seq<char>) -> Seq<char> {
    p.map_values(|c: char| if c == '%' { '*' } else { c })
}

/// The RQL text of a WHERE condition.
pub open spec fn condition_text(c: SpecCondition) -> Seq<char>
    decreases c,
{
    match c {
        SpecCondition::Equals { field, value } => equality_text(field, value),
        SpecCondition::GreaterThan { field, value } => "@"@ + field + ":[("@ + value_text(value)
            + " +inf]"@,
        SpecCondition::GreaterThanOrEqual { field, value } => "@"@ + field + ":["@ + value_text(
            value,
        ) + " +inf]"@,
        SpecCondition::LessThan { field, value } => "@"@ + field + ":[-inf ("@ + value_text(value)
            + "]"@,
        SpecCondition::LessThanOrEqual { field, value } => "@"@ + field + ":[-inf "@ + value_text(
            value,
        ) + "]"@,
        SpecCondition::Between { field, low, high } => "@"@ + field + ":["@ + value_text(low)
            + " "@ + value_text(high) + "]"@,
        SpecCondition::In { field, values, negated } => negation_prefix(negated) + membership_text(
            field,
            values,
        ),
        SpecCondition::NotEquals { field, value } => "-"@ + equality_text(field, value),
        SpecCondition::Like { field, pattern, negated } => negation_prefix(negated) + "@"@ + field
            + ":"@ + wildcard_pattern(pattern),
        SpecCondition::IsNull { field, negated } => negation_prefix(negated) + "ismissing(@"@
            + field + ")"@,
        SpecCondition::And(l, r) => "("@ + condition_text(*l) + ") ("@ + condition_text(*r) + ")"@,
        SpecCondition::Or(l, r) => "(("@ + condition_text(*l) + ") | ("@ + condition_text(*r)
            + "))"@,
        SpecCondition::Not(inner) => "-("@ + condition_text(*inner) + ")"@,
    }
}

/// A strict upper bound is written with the exclusive `(` marker before the
/// value, an inclusive one without: `f < v` gives `@f:[-inf (v]`, `f <= v`
/// gives `@f:[-inf v]`, and the two never give the same text. Likewise `f > v`
/// gives `@f:[(v +inf]` and differs from `f >= v`, which gives `@f:[v +inf]`.
pub proof fn lemma_strict_bounds_are_exclusive(field: Seq<char>, value: SpecValue)
    ensures
        condition_text(SpecCondition::LessThan { field, value }) == "@"@ + field + ":[-inf ("@
            + value_text(value) + "]"@,
        condition_text(SpecCondition::LessThanOrEqual { field, value }) == "@"@ + field
            + ":[-inf "@ + value_text(value) + "]"@,
        condition_text(SpecCondition::LessThan { field, value }) != condition_text(
            SpecCondition::LessThanOrEqual { field, value },
        ),
        condition_text(SpecCondition::GreaterThan { field, value }) == "@"@ + field + ":[("@
            + value_text(value) + " +inf]"@,
        condition_text(SpecCondition::GreaterThanOrEqual { field, value }) == "@"@ + field + ":["@
            + value_text(value) + " +inf]"@,
        condition_text(SpecCondition::GreaterThan { field, value }) != condition_text(
            SpecCondition::GreaterThanOrEqual { field, value },
        ),
{
    reveal_strlit("@");
    reveal_strlit(":[-inf (");
    reveal_strlit(":[-inf ");
    reveal_strlit(":[(");
    reveal_strlit(":[");
    reveal_strlit("]");
    reveal_strlit(" +inf]");
    let lt = condition_text(SpecCondition::LessThan { field, value });
    let le = condition_text(SpecCondition::LessThanOrEqual { field, value });
    assert(lt.len() == le.len() + 1);
    let gt = condition_text(SpecCondition::GreaterThan { field, value });
    let ge = condition_text(SpecCondition::GreaterThanOrEqual { field, value });
    assert(gt.len() == ge.len() + 1);
}

/// The FILTER text of HAVING `a OR b` joins the texts of `a` and `b` with
/// ` || `, that of `a AND b` with ` && `; the two connectives never give the
/// same text.
pub proof fn lemma_having_connectives(aggs: Seq<SpecAggregateExpr>, a: SpecCondition, b: SpecCondition)
    requires
        having_text(aggs, a) is Some,
        having_text(aggs, b) is Some,
    ensures
        having_text(aggs, SpecCondition::Or(Box::new(a), Box::new(b))) == Some(
            "("@ + having_text(aggs, a)->0 + " || "@ + having_text(aggs, b)->0 + ")"@,
        ),
        having_text(aggs, SpecCondition::And(Box::new(a), Box::new(b))) == Some(
            "("@ + having_text(aggs, a)->0 + " && "@ + having_text(aggs, b)->0 + ")"@,
        ),
        having_text(aggs, SpecCondition::Or(Box::new(a), Box::new(b))) != having_text(
            aggs,
            SpecCondition::And(Box::new(a), Box::new(b)),
        ),
{
    reveal_strlit("(");
    reveal_strlit(" || ");
    reveal_strlit(" && ");
    reveal_strlit(")");
    let x = having_text(aggs, a)->0;
    let y = having_text(aggs, b)->0;
    let o = "("@ + x + " || "@ + y + ")"@;
    let n = "("@ + x + " && "@ + y + ")"@;
    assert(o[x.len() as int + 2] == '|');
    assert(n[x.len() as int + 2] == '&');
}

/// A search with one ORDER BY column sorts by that column in its own
/// direction: `SORTBY field DESC` for a descending column, `SORTBY field ASC`
/// for an ascending one; the two directions never give the same arguments.
pub proof fn lemma_sort_follows_direction(field: Seq<char>, direction: SortDirection)
    ensures
        search_sort_args(Some(seq![SpecOrderByColumn { field, direction }])) == seq![
            "SORTBY"@,
            field,
            if direction == SortDirection::Desc { "DESC"@ } else { "ASC"@ },
        ],
        search_sort_args(Some(seq![SpecOrderByColumn { field, direction: SortDirection::Asc }]))
            != search_sort_args(Some(seq![SpecOrderByColumn { field, direction: SortDirection::Desc }])),
{
    reveal_strlit("ASC");
    reveal_strlit("DESC");
    let a = search_sort_args(Some(seq![SpecOrderByColumn { field, direction: SortDirection::Asc }]));
    let d = search_sort_args(Some(seq![SpecOrderByColumn { field, direction: SortDirection::Desc }]));
    assert(a[2].len() != d[2].len());
}

pub open spec fn condition_texts(cs: Seq<SpecCondition>) -> Seq<Seq<char>> {
    cs.map_values(|c: SpecCondition| condition_text(c))
}

/// The query string of the WHERE conditions: `*` when there are none,
/// otherwise the conditions separated by spaces (an intersection).
pub open spec fn filter_text(cs: Seq<SpecCondition>) -> Seq<char> {
    if cs.len() == 0 {
        "*"@
    } else {
        join(condition_texts(cs), " "@)
    }
}

/// The filter in front of a KNN clause, parenthesized when it is an intersection.
pub open spec fn knn_filter_text(cs: Seq<SpecCondition>) -> Seq<char> {
    if cs.len() <= 1 {
        filter_text(cs)
    } else {
        "("@ + filter_text(cs) + ")"@
    }
}

// ---------------------------------------------------------------------------
// Schema validation

pub open spec fn text_only(caps: Option<FieldCapabilities>) -> bool {
    match caps {
        Some(c) => c.supports_text_queries && !c.supports_tag_queries,
        None => false,
    }
}

pub open spec fn has_string_value(values: Seq<SpecValue>) -> bool {
    exists|i: int| 0 <= i < values.len() && is_string_value(#[trigger] values[i])
}

/// The first field of the condition that is compared for equality with a
/// string although the schema declares it TEXT only.
pub open spec fn text_equality_field(schema: SpecQuerySchema, c: SpecCondition) -> Option<
    Seq<char>,
>
    decreases c,
{
    match c {
        SpecCondition::Equals { field, value } => if value is Str && text_only(
            field_caps(schema, field),
        ) {
            Some(field)
        } else {
            None
        },
        SpecCondition::NotEquals { field, value } => if value is Str && text_only(
            field_caps(schema, field),
        ) {
            Some(field)
        } else {
            None
        },
        SpecCondition::In { field, values, .. } => if has_string_value(values) && text_only(
            field_caps(schema, field),
        ) {
            Some(field)
        } else {
            None
        },
        SpecCondition::And(l, r) => match text_equality_field(schema, *l) {
            Some(f) => Some(f),
            None => text_equality_field(schema, *r),
        },
        SpecCondition::Or(l, r) => match text_equality_field(schema, *l) {
            Some(f) => Some(f),
            None => text_equality_field(schema, *r),
        },
        SpecCondition::Not(inner) => text_equality_field(schema, *inner),
        _ => None,
    }
}

/// The first offending field over the conditions, in order.
pub open spec fn conditions_text_equality_field(
    schema: SpecQuerySchema,
    cs: Seq<SpecCondition>,
) -> Option<Seq<char>>
    decreases cs.len(),
{
    if cs.len() == 0 {
        None
    } else {
        match conditions_text_equality_field(schema, cs.drop_last()) {
            Some(f) => Some(f),
            None => text_equality_field(schema, cs.last()),
        }
    }
}

pub open spec fn text_equality_message(field: Seq<char>) -> Seq<char> {
    "Equality on TEXT field '"@ + field
        + "' is not supported: SQL has no full-text predicate such as MATCH; use a TAG field for exact matches"@
}

// ---------------------------------------------------------------------------
// Arguments

pub open spec fn limit_args(limit: Option<crate::sql_parser::ast::Limit>) -> Seq<Seq<char>> {
    match limit {
        Some(l) => seq!["LIMIT"@, nat_text(l.offset as nat), nat_text(l.count as nat)],
        None => Seq::empty(),
    }
}

/// The tokens of the projected fields: `name` or `name AS alias`.
pub open spec fn return_tokens(fields: Seq<SpecSelectField>) -> Seq<Seq<char>>
    decreases fields.len(),
{
    if fields.len() == 0 {
        Seq::empty()
    } else {
        let f = fields.last();
        return_tokens(fields.drop_last()) + match f.alias {
            Some(a) => seq![f.name, "AS"@, a],
            None => seq![f.name],
        }
    }
}

pub open spec fn return_args(fields: Seq<SpecSelectField>) -> Seq<Seq<char>> {
    if fields.len() == 0 {
        Seq::empty()
    } else {
        seq!["RETURN"@, nat_text(return_tokens(fields).len())] + return_tokens(fields)
    }
}

pub open spec fn search_sort_args(order_by: Option<Seq<SpecOrderByColumn>>) -> Seq<Seq<char>> {
    match order_by {
        Some(cols) => if cols.len() == 1 {
            seq!["SORTBY"@, cols[0].field, direction_text(cols[0].direction)]
        } else {
            Seq::empty()
        },
        None => Seq::empty(),
    }
}

pub open spec fn params_args(vector: Seq<char>) -> Seq<Seq<char>> {
    seq!["PARAMS"@, "2"@, "BLOB"@, vector]
}

pub open spec fn multiple_sort_message() -> Seq<char> {
    "Multiple ORDER BY columns are only supported for aggregate queries"@
}

/// `FT.SEARCH`: filter (with KNN clause for vector search), RETURN, SORTBY,
/// LIMIT and PARAMS.
pub open spec fn search_translation(q: SpecSelectQuery) -> Result<SpecTranslation, SpecSqlError> {
    if q.order_by matches Some(cols) && cols.len() > 1 {
        Err(plain_error(ErrorCategory::Unsupported, multiple_sort_message()))
    } else {
        let query_string = match q.vector_search {
            Some(v) => knn_filter_text(q.conditions) + "=>[KNN "@ + nat_text(v.k as nat) + " @"@
                + v.field + " $BLOB]"@,
            None => filter_text(q.conditions),
        };
        let params = match q.vector_search {
            Some(v) => params_args(v.vector),
            None => Seq::empty(),
        };
        Ok(
            SpecTranslation {
                command: Command::Search,
                index_name: q.index_name,
                query_string,
                arguments: return_args(q.fields) + search_sort_args(q.order_by) + limit_args(
                    q.limit,
                ) + params,
            },
        )
    }
}

/// `FT.HYBRID`: SEARCH filter, VSIM clause, LINEAR combination of the two weights.
pub open spec fn hybrid_translation(q: SpecSelectQuery) -> SpecTranslation {
    let h = q.hybrid_search->0;
    SpecTranslation {
        command: Command::Hybrid,
        index_name: q.index_name,
        query_string: filter_text(q.conditions),
        arguments: seq![
            "VSIM"@,
            "@"@ + h.vector.field,
            "$BLOB"@,
            "KNN"@,
            "2"@,
            "K"@,
            nat_text(h.vector.k as nat),
            "COMBINE"@,
            "LINEAR"@,
            "4"@,
            "ALPHA"@,
            display_text(h.vector_weight),
            "BETA"@,
            display_text(h.text_weight),
        ] + limit_args(q.limit) + params_args(h.vector.vector),
    }
}

// ---------------------------------------------------------------------------
// Aggregation

pub open spec fn is_aggregate(q: SpecSelectQuery) -> bool {
    q.distinct || q.aggregates.len() > 0 || q.group_by is Some || q.having is Some
}

pub open spec fn at_field(f: Seq<char>) -> Seq<char> {
    "@"@ + f
}

pub open spec fn group_args(q: SpecSelectQuery) -> Seq<Seq<char>> {
    match q.group_by {
        Some(fs) => seq!["GROUPBY"@, nat_text(fs.len())] + fs.map_values(|f: Seq<char>| at_field(f)),
        None => if q.distinct {
            seq!["GROUPBY"@, nat_text(q.fields.len())] + q.fields.map_values(
                |f: SpecSelectField| at_field(f.name),
            )
        } else {
            seq!["GROUPBY"@, "0"@]
        },
    }
}

/// The lower-case stem of a reducer's default output name.
pub open spec fn reducer_stem(f: SpecAggregateFunction) -> Seq<char> {
    match f {
        SpecAggregateFunction::Count => "count"@,
        SpecAggregateFunction::Sum => "sum"@,
        SpecAggregateFunction::Avg => "avg"@,
        SpecAggregateFunction::Min => "min"@,
        SpecAggregateFunction::Max => "max"@,
        SpecAggregateFunction::CountDistinct => "count_distinct"@,
        SpecAggregateFunction::CountDistinctish => "count_distinctish"@,
        SpecAggregateFunction::Stddev => "stddev"@,
        SpecAggregateFunction::Quantile { .. } => "quantile"@,
        SpecAggregateFunction::Tolist => "tolist"@,
        SpecAggregateFunction::FirstValue { .. } => "first_value"@,
        SpecAggregateFunction::RandomSample { .. } => "random_sample"@,
        SpecAggregateFunction::Hll => "hll"@,
        SpecAggregateFunction::HllSum => "hll_sum"@,
    }
}

/// The token naming a percentile in an output name: its digits after `0.`
/// for values strictly between 0 and 1, otherwise its printed form.
pub open spec fn percentile_token(p: SpecNumber) -> Seq<char> {
    let t = display_text(p);
    if t.len() > 2 && t[0] == '0' && t[1] == '.' {
        t.skip(2)
    } else {
        t
    }
}

/// Default output name: `<stem>[_<parameter>][_<field>]`.
pub open spec fn default_alias(a: SpecAggregateExpr) -> Seq<char> {
    reducer_stem(a.function) + match a.function {
        SpecAggregateFunction::Quantile { percentile } => "_"@ + percentile_token(percentile),
        SpecAggregateFunction::RandomSample { size } => "_"@ + nat_text(size as nat),
        _ => Seq::empty(),
    } + match a.field {
        Some(f) => "_"@ + f,
        None => Seq::empty(),
    }
}

pub open spec fn effective_alias(a: SpecAggregateExpr) -> Seq<char> {
    match a.alias {
        Some(x) => x,
        None => default_alias(a),
    }
}

/// The reducer's arguments.
pub open spec fn reducer_params(a: SpecAggregateExpr) -> Seq<Seq<char>> {
    let field_tokens = match a.field {
        Some(f) => seq![at_field(f)],
        None => Seq::empty(),
    };
    match a.function {
        SpecAggregateFunction::Quantile { percentile } => field_tokens.push(display_text(percentile)),
        SpecAggregateFunction::RandomSample { size } => field_tokens.push(nat_text(size as nat)),
        SpecAggregateFunction::FirstValue { sort_field, ascending } => field_tokens + seq![
            "BY"@,
            at_field(sort_field),
            if ascending {
                "ASC"@
            } else {
                "DESC"@
            },
        ],
        _ => field_tokens,
    }
}

/// `REDUCE <NAME> <nargs> <args...> AS <name>`.
pub open spec fn reducer_args(a: SpecAggregateExpr) -> Seq<Seq<char>> {
    seq!["REDUCE"@, aggregate_name(a.function), nat_text(reducer_params(a).len())] + reducer_params(
        a,
    ) + seq!["AS"@, effective_alias(a)]
}

pub open spec fn reducers_args(aggs: Seq<SpecAggregateExpr>) -> Seq<Seq<char>>
    decreases aggs.len(),
{
    if aggs.len() == 0 {
        Seq::empty()
    } else {
        reducers_args(aggs.drop_last()) + reducer_args(aggs.last())
    }
}

/// The output name a HAVING operand refers to: the name of the first
/// aggregate whose default name it is, or the operand itself.
pub open spec fn resolve_name(aggs: Seq<SpecAggregateExpr>, name: Seq<char>) -> Seq<char>
    decreases aggs.len(),
{
    if aggs.len() == 0 {
        name
    } else if default_alias(aggs[0]) == name {
        effective_alias(aggs[0])
    } else {
        resolve_name(aggs.drop_first(), name)
    }
}

pub open spec fn filter_value(v: SpecValue) -> Seq<char> {
    match v {
        SpecValue::Str(s) => "'"@ + s + "'"@,
        SpecValue::Num(n) => rql_text(n),
    }
}

pub open spec fn comparison(aggs: Seq<SpecAggregateExpr>, field: Seq<char>, op: Seq<char>, v: SpecValue) -> Seq<char> {
    "@"@ + resolve_name(aggs, field) + op + filter_value(v)
}

/// The FILTER expression of a HAVING condition, if it is one that FILTER can express.
pub open spec fn having_text(aggs: Seq<SpecAggregateExpr>, c: SpecCondition) -> Option<Seq<char>>
    decreases c,
{
    match c {
        SpecCondition::GreaterThan { field, value } => Some(comparison(aggs, field, ">"@, value)),
        SpecCondition::GreaterThanOrEqual { field, value } => Some(
            comparison(aggs, field, ">="@, value),
        ),
        SpecCondition::LessThan { field, value } => Some(comparison(aggs, field, "<"@, value)),
        SpecCondition::LessThanOrEqual { field, value } => Some(
            comparison(aggs, field, "<="@, value),
        ),
        SpecCondition::Equals { field, value } => Some(comparison(aggs, field, "=="@, value)),
        SpecCondition::NotEquals { field, value } => Some(comparison(aggs, field, "!="@, value)),
        SpecCondition::And(l, r) => match (having_text(aggs, *l), having_text(aggs, *r)) {
            (Some(a), Some(b)) => Some("("@ + a + " && "@ + b + ")"@),
            _ => None,
        },
        SpecCondition::Or(l, r) => match (having_text(aggs, *l), having_text(aggs, *r)) {
            (Some(a), Some(b)) => Some("("@ + a + " || "@ + b + ")"@),
            _ => None,
        },
        _ => None,
    }
}

pub open spec fn aggregate_sort_tokens(cols: Seq<SpecOrderByColumn>) -> Seq<Seq<char>>
    decreases cols.len(),
{
    if cols.len() == 0 {
        Seq::empty()
    } else {
        aggregate_sort_tokens(cols.drop_last()) + seq![
            at_field(cols.last().field),
            direction_text(cols.last().direction),
        ]
    }
}

pub open spec fn aggregate_sort_args(order_by: Option<Seq<SpecOrderByColumn>>) -> Seq<Seq<char>> {
    match order_by {
        Some(cols) => if cols.len() > 0 {
            seq!["SORTBY"@, nat_text(2 * cols.len())] + aggregate_sort_tokens(cols)
        } else {
            Seq::empty()
        },
        None => Seq::empty(),
    }
}

pub open spec fn having_message() -> Seq<char> {
    "Only comparisons combined with AND/OR are supported in HAVING clause"@
}

pub open spec fn vector_aggregate_message() -> Seq<char> {
    "Vector search cannot be combined with DISTINCT, aggregate functions, GROUP BY or HAVING"@
}

/// `FT.AGGREGATE`: filter, GROUPBY, REDUCE clauses, FILTER, SORTBY, LIMIT.
pub open spec fn aggregate_translation(q: SpecSelectQuery) -> Result<SpecTranslation, SpecSqlError> {
    let having = match q.having {
        Some(h) => match having_text(q.aggregates, h) {
            Some(t) => Some(seq!["FILTER"@, t]),
            None => None,
        },
        None => Some(Seq::empty()),
    };
    if q.vector_search is Some {
        Err(plain_error(ErrorCategory::Unsupported, vector_aggregate_message()))
    } else if having is None {
        Err(plain_error(ErrorCategory::Unsupported, having_message()))
    } else {
        Ok(
            SpecTranslation {
                command: Command::Aggregate,
                index_name: q.index_name,
                query_string: filter_text(q.conditions),
                arguments: group_args(q) + reducers_args(q.aggregates) + having->0
                    + aggregate_sort_args(q.order_by) + limit_args(q.limit),
            },
        )
    }
}

pub open spec fn hybrid_aggregate_message() -> Seq<char> {
    "Hybrid search cannot be combined with DISTINCT, aggregate functions, GROUP BY or HAVING"@
}

/// The translation of a parsed query under a schema.
pub open spec fn translate_spec(q: SpecSelectQuery, schema: SpecQuerySchema) -> Result<
    SpecTranslation,
    SpecSqlError,
> {
    match conditions_text_equality_field(schema, q.conditions) {
        Some(f) => Err(plain_error(ErrorCategory::Unsupported, text_equality_message(f))),
        None => if q.hybrid_search is Some {
            if is_aggregate(q) {
                Err(plain_error(ErrorCategory::Unsupported, hybrid_aggregate_message()))
            } else {
                Ok(hybrid_translation(q))
            }
        } else if is_aggregate(q) {
            aggregate_translation(q)
        } else {
            search_translation(q)
        },
    }
}

} // verus!

verus! {

fn lit(s: &str) -> (r: String)
    ensures
        r@ == s@,
{
    String::from_str(s)
}

proof fn lemma_join_step(parts: Seq<Seq<char>>, sep: Seq<char>, i: int)
    requires
        0 <= i < parts.len(),
    ensures
        join(parts.take(i + 1), sep) == if i == 0 {
            parts[0]
        } else {
            join(parts.take(i), sep) + sep + parts[i]
        },
{
    assert(parts.take(i + 1).drop_last() == parts.take(i));
    assert(parts.take(i + 1).last() == parts[i]);
    if i == 0 {
        assert(parts.take(1)[0] == parts[0]);
    }
}

/// `parts` joined with `sep`.
pub fn join_strings(parts: &Vec<String>, sep: &str) -> (r: String)
    ensures
        r@ == join(strings_view(parts@), sep@),
{
    let ghost ps = strings_view(parts@);
    let mut r = String::new();
    let mut i: usize = 0;
    while i < parts.len()
        invariant
            ps == strings_view(parts@),
            i <= parts@.len(),
            r@ == join(ps.take(i as int), sep@),
        decreases parts@.len() - i,
    {
        proof {
            lemma_join_step(ps, sep@, i as int);
        }
        if i > 0 {
            push_str(&mut r, sep);
        }
        push_str(&mut r, parts[i].as_str());
        assert(ps[i as int] == parts@[i as int]@);
        assert(i == 0 ==> r@ =~= ps[0]);
        i = i + 1;
    }
    assert(ps.take(ps.len() as int) == ps);
    r
}

fn equality_string(field: &String, value: &Value) -> (r: String)
    ensures
        r@ == equality_text(field@, value@),
{
    let mut r = lit("@");
    push_str(&mut r, field.as_str());
    match value {
        Value::String(s) => {
            push_str(&mut r, ":{");
            push_str(&mut r, s.as_str());
            push_str(&mut r, "}");
        },
        Value::Number(n) => {
            let t = n.to_rql_string();
            push_str(&mut r, ":[");
            push_str(&mut r, t.as_str());
            push_str(&mut r, " ");
            push_str(&mut r, t.as_str());
            push_str(&mut r, "]");
        },
    }
    r
}

fn negation_string(negated: bool) -> (r: String)
    ensures
        r@ == negation_prefix(negated),
{
    if negated {
        lit("-")
    } else {
        String::new()
    }
}

fn membership_string(field: &String, values: &Vec<Value>) -> (r: String)
    ensures
        r@ == membership_text(field@, crate::sql_parser::ast::values_view(values@)),
{
    let ghost vs = crate::sql_parser::ast::values_view(values@);
    let mut all = true;
    let mut i: usize = 0;
    while i < values.len()
        invariant
            vs == crate::sql_parser::ast::values_view(values@),
            i <= values@.len(),
            all == all_strings(vs.take(i as int)),
        decreases values@.len() - i,
    {
        let is_str = match &values[i] {
            Value::String(_) => true,
            Value::Number(_) => false,
        };
        assert(vs[i as int] == values@[i as int]@);
        assert(!is_str ==> !is_string_value(vs.take(i + 1)[i as int]));
        assert(all_strings(vs.take(i + 1)) == (all_strings(vs.take(i as int)) && is_str)) by {
            if all_strings(vs.take(i as int)) && is_str {
                assert forall|k: int| 0 <= k < i + 1 implies is_string_value(
                    #[trigger] vs.take(i + 1)[k],
                ) by {
                    if k < i {
                        assert(vs.take(i + 1)[k] == vs.take(i as int)[k]);
                    }
                }
            }
            if all_strings(vs.take(i + 1)) {
                assert forall|k: int| 0 <= k < i implies is_string_value(
                    #[trigger] vs.take(i as int)[k],
                ) by {
                    assert(vs.take(i + 1)[k] == vs.take(i as int)[k]);
                }
            }
        }
        all = all && is_str;
        i = i + 1;
    }
    assert(vs.take(vs.len() as int) == vs);
    let mut parts: Vec<String> = Vec::new();
    let mut j: usize = 0;
    while j < values.len()
        invariant
            vs == crate::sql_parser::ast::values_view(values@),
            j <= values@.len(),
            parts@.len() == j,
            forall|k: int| 0 <= k < j ==> (#[trigger] parts@[k])@ == (if all {
                value_text(vs[k])
            } else {
                equality_text(field@, vs[k])
            }),
        decreases values@.len() - j,
    {
        let p = if all {
            values[j].to_rql_string()
        } else {
            equality_string(field, &values[j])
        };
        assert(vs[j as int] == values@[j as int]@);
        parts.push(p);
        j = j + 1;
    }
    let ghost mapped = if all {
        vs.map_values(|v: SpecValue| value_text(v))
    } else {
        vs.map_values(|v: SpecValue| equality_text(field@, v))
    };
    assert(strings_view(parts@) =~= mapped);
    let joined = join_strings(&parts, "|");
    let mut r;
    if all {
        r = lit("@");
        push_str(&mut r, field.as_str());
        push_str(&mut r, ":{");
        push_str(&mut r, joined.as_str());
        push_str(&mut r, "}");
    } else {
        r = lit("(");
        push_str(&mut r, joined.as_str());
        push_str(&mut r, ")");
    }
    r
}

fn wildcard_string(p: &String) -> (r: String)
    ensures
        r@ == wildcard_pattern(p@),
{
    let cs = crate::sql_parser::text::chars_of(p.as_str());
    let mut r = String::new();
    let mut i: usize = 0;
    while i < cs.len()
        invariant
            cs@ == p@,
            i <= cs@.len(),
            r@ == wildcard_pattern(cs@.take(i as int)),
        decreases cs@.len() - i,
    {
        let c = if cs[i] == '%' {
            '*'
        } else {
            cs[i]
        };
        push_char(&mut r, c);
        assert(wildcard_pattern(cs@.take(i + 1)) =~= wildcard_pattern(cs@.take(i as int)).push(c));
        i = i + 1;
    }
    assert(cs@.take(cs@.len() as int) == cs@);
    r
}

/// Translates a single condition to RQL syntax.
pub fn translate_condition(c: &Condition) -> (r: String)
    ensures
        r@ == condition_text(c@),
    decreases c,
{
    match c {
        Condition::Equals { field, value } => equality_string(field, value),
        Condition::GreaterThan { field, value } => {
            let mut r = lit("@");
            push_str(&mut r, field.as_str());
            push_str(&mut r, ":[(");
            push_str(&mut r, value.to_rql_string().as_str());
            push_str(&mut r, " +inf]");
            r
        },
        Condition::GreaterThanOrEqual { field, value } => {
            let mut r = lit("@");
            push_str(&mut r, field.as_str());
            push_str(&mut r, ":[");
            push_str(&mut r, value.to_rql_string().as_str());
            push_str(&mut r, " +inf]");
            r
        },
        Condition::LessThan { field, value } => {
            let mut r = lit("@");
            push_str(&mut r, field.as_str());
            push_str(&mut r, ":[-inf (");
            push_str(&mut r, value.to_rql_string().as_str());
            push_str(&mut r, "]");
            r
        },
        Condition::LessThanOrEqual { field, value } => {
            let mut r = lit("@");
            push_str(&mut r, field.as_str());
            push_str(&mut r, ":[-inf ");
            push_str(&mut r, value.to_rql_string().as_str());
            push_str(&mut r, "]");
            r
        },
        Condition::Between { field, low, high } => {
            let mut r = lit("@");
            push_str(&mut r, field.as_str());
            push_str(&mut r, ":[");
            push_str(&mut r, low.to_rql_string().as_str());
            push_str(&mut r, " ");
            push_str(&mut r, high.to_rql_string().as_str());
            push_str(&mut r, "]");
            r
        },
        Condition::In { field, values, negated } => {
            let mut r = negation_string(*negated);
            push_str(&mut r, membership_string(field, values).as_str());
            r
        },
        Condition::NotEquals { field, value } => {
            let mut r = lit("-");
            push_str(&mut r, equality_string(field, value).as_str());
            r
        },
        Condition::Like { field, pattern, negated } => {
            let mut r = negation_string(*negated);
            push_str(&mut r, "@");
            push_str(&mut r, field.as_str());
            push_str(&mut r, ":");
            push_str(&mut r, wildcard_string(pattern).as_str());
            r
        },
        Condition::IsNull { field, negated } => {
            let mut r = negation_string(*negated);
            push_str(&mut r, "ismissing(@");
            push_str(&mut r, field.as_str());
            push_str(&mut r, ")");
            r
        },
        Condition::And(l, rt) => {
            let mut r = lit("(");
            push_str(&mut r, translate_condition(l).as_str());
            push_str(&mut r, ") (");
            push_str(&mut r, translate_condition(rt).as_str());
            push_str(&mut r, ")");
            r
        },
        Condition::Or(l, rt) => {
            let mut r = lit("((");
            push_str(&mut r, translate_condition(l).as_str());
            push_str(&mut r, ") | (");
            push_str(&mut r, translate_condition(rt).as_str());
            push_str(&mut r, "))");
            r
        },
        Condition::Not(inner) => {
            let mut r = lit("-(");
            push_str(&mut r, translate_condition(inner).as_str());
            push_str(&mut r, ")");
            r
        },
    }
}

/// The query string of the WHERE conditions.
pub fn build_query_string(conditions: &Vec<Condition>) -> (r: String)
    ensures
        r@ == filter_text(conditions@.map_values(|c: Condition| c@)),
{
    let ghost cs = conditions@.map_values(|c: Condition| c@);
    if conditions.len() == 0 {
        return lit("*");
    }
    let mut parts: Vec<String> = Vec::new();
    let mut i: usize = 0;
    while i < conditions.len()
        invariant
            cs == conditions@.map_values(|c: Condition| c@),
            i <= conditions@.len(),
            parts@.len() == i,
            forall|k: int| 0 <= k < i ==> (#[trigger] parts@[k])@ == condition_text(cs[k]),
        decreases conditions@.len() - i,
    {
        let t = translate_condition(&conditions[i]);
        parts.push(t);
        i = i + 1;
    }
    assert(strings_view(parts@) =~= condition_texts(cs));
    join_strings(&parts, " ")
}

} // verus!

verus! {

fn push_arg(args: &mut Vec<String>, s: String)
    ensures
        strings_view(final(args)@) == strings_view(old(args)@).push(s@),
{
    args.push(s);
    assert(strings_view(args@) =~= strings_view(old(args)@).push(s@));
}

fn push_lit(args: &mut Vec<String>, s: &str)
    ensures
        strings_view(final(args)@) == strings_view(old(args)@).push(s@),
{
    push_arg(args, lit(s));
}

fn append_args(args: &mut Vec<String>, more: Vec<String>)
    ensures
        strings_view(final(args)@) == strings_view(old(args)@) + strings_view(more@),
{
    let mut more = more;
    let ghost m = more@;
    args.append(&mut more);
    assert(strings_view(args@) =~= strings_view(old(args)@) + strings_view(m));
}

fn string_of_nat(n: usize) -> (s: String)
    ensures
        s@ == nat_text(n as nat),
{
    nat_string(n as u128)
}

fn limit_arguments(limit: &Option<crate::sql_parser::ast::Limit>) -> (args: Vec<String>)
    ensures
        strings_view(args@) == limit_args(*limit),
{
    let mut args: Vec<String> = Vec::new();
    match limit {
        Some(l) => {
            push_lit(&mut args, "LIMIT");
            push_arg(&mut args, nat_string(l.offset as u128));
            push_arg(&mut args, nat_string(l.count as u128));
            assert(strings_view(args@) =~= limit_args(*limit));
        },
        None => {
            assert(strings_view(args@) =~= limit_args(*limit));
        },
    }
    args
}

pub open spec fn fields_view(fields: Seq<SelectField>) -> Seq<SpecSelectField> {
    fields.map_values(|f: SelectField| f@)
}

fn return_arguments(fields: &Vec<SelectField>) -> (args: Vec<String>)
    ensures
        strings_view(args@) == return_args(fields_view(fields@)),
{
    let ghost fs = fields_view(fields@);
    let mut tokens: Vec<String> = Vec::new();
    let mut i: usize = 0;
    while i < fields.len()
        invariant
            fs == fields_view(fields@),
            i <= fields@.len(),
            strings_view(tokens@) == return_tokens(fs.take(i as int)),
        decreases fields@.len() - i,
    {
        let f = &fields[i];
        assert(fs[i as int] == f@);
        assert(fs.take(i + 1).drop_last() == fs.take(i as int));
        assert(fs.take(i + 1).last() == f@);
        push_arg(&mut tokens, f.name.clone());
        match &f.alias {
            Some(a) => {
                push_lit(&mut tokens, "AS");
                push_arg(&mut tokens, a.clone());
            },
            None => {},
        }
        assert(strings_view(tokens@) =~= return_tokens(fs.take(i + 1)));
        i = i + 1;
    }
    assert(fs.take(fs.len() as int) == fs);
    let mut args: Vec<String> = Vec::new();
    if fields.len() > 0 {
        push_lit(&mut args, "RETURN");
        push_arg(&mut args, string_of_nat(tokens.len()));
        append_args(&mut args, tokens);
    }
    assert(strings_view(args@) =~= return_args(fs));
    args
}

pub open spec fn order_view(o: Option<crate::sql_parser::ast::OrderBy>) -> Option<Seq<SpecOrderByColumn>> {
    match o {
        Some(ob) => Some(ob@),
        None => None,
    }
}

fn search_sort_arguments(order_by: &Option<crate::sql_parser::ast::OrderBy>) -> (args: Vec<String>)
    ensures
        strings_view(args@) == search_sort_args(order_view(*order_by)),
{
    let mut args: Vec<String> = Vec::new();
    match order_by {
        Some(ob) => {
            if ob.columns.len() == 1 {
                let c = &ob.columns[0];
                assert(ob@[0] == c@);
                push_lit(&mut args, "SORTBY");
                push_arg(&mut args, c.field.clone());
                push_arg(&mut args, c.direction.display_string());
            }
        },
        None => {},
    }
    assert(strings_view(args@) =~= search_sort_args(order_view(*order_by)));
    args
}

fn params_arguments(vector: &String) -> (args: Vec<String>)
    ensures
        strings_view(args@) == params_args(vector@),
{
    let mut args: Vec<String> = Vec::new();
    push_lit(&mut args, "PARAMS");
    push_lit(&mut args, "2");
    push_lit(&mut args, "BLOB");
    push_arg(&mut args, vector.clone());
    assert(strings_view(args@) =~= params_args(vector@));
    args
}

pub open spec fn conditions_view(cs: Seq<Condition>) -> Seq<SpecCondition> {
    cs.map_values(|c: Condition| c@)
}

fn knn_filter_string(conditions: &Vec<Condition>) -> (r: String)
    ensures
        r@ == knn_filter_text(conditions_view(conditions@)),
{
    let f = build_query_string(conditions);
    assert(conditions_view(conditions@) == conditions@.map_values(|c: Condition| c@));
    if conditions.len() <= 1 {
        f
    } else {
        let mut r = lit("(");
        push_str(&mut r, f.as_str());
        push_str(&mut r, ")");
        r
    }
}

/// `FT.SEARCH` arguments for the query.
fn search_translate(q: &SelectQuery) -> (r: Result<Translation, SqlError>)
    ensures
        match r {
            Ok(t) => search_translation(q@) == Ok::<SpecTranslation, SpecSqlError>(t@),
            Err(e) => search_translation(q@) == Err::<SpecTranslation, SpecSqlError>(e@),
        },
{
    match &q.order_by {
        Some(ob) => {
            if ob.columns.len() > 1 {
                return Err(
                    SqlError::unsupported(
                        "Multiple ORDER BY columns are only supported for aggregate queries",
                    ),
                );
            }
        },
        None => {},
    }
    assert(conditions_view(q.conditions@) == q@.conditions);
    assert(fields_view(q.fields@) == q@.fields);
    assert(order_view(q.order_by) == q@.order_by);
    let query_string = match &q.vector_search {
        Some(v) => {
            let mut s = knn_filter_string(&q.conditions);
            push_str(&mut s, "=>[KNN ");
            push_str(&mut s, string_of_nat(v.k).as_str());
            push_str(&mut s, " @");
            push_str(&mut s, v.field.as_str());
            push_str(&mut s, " $BLOB]");
            s
        },
        None => build_query_string(&q.conditions),
    };
    let mut arguments = return_arguments(&q.fields);
    append_args(&mut arguments, search_sort_arguments(&q.order_by));
    append_args(&mut arguments, limit_arguments(&q.limit));
    match &q.vector_search {
        Some(v) => {
            append_args(&mut arguments, params_arguments(&v.vector));
        },
        None => {
            assert(strings_view(arguments@) =~= strings_view(arguments@) + Seq::<Seq<char>>::empty());
        },
    }
    let t = Translation {
        command: Command::Search,
        index_name: q.index_name.clone(),
        query_string,
        arguments,
    };
    assert(t@.arguments == return_args(q@.fields) + search_sort_args(q@.order_by) + limit_args(
        q@.limit,
    ) + match q@.vector_search {
        Some(v) => params_args(v.vector),
        None => Seq::empty(),
    });
    Ok(t)
}

/// `FT.HYBRID` arguments for a query with hybrid search.
fn hybrid_translate(q: &SelectQuery) -> (t: Translation)
    requires
        q.hybrid_search is Some,
    ensures
        t@ == hybrid_translation(q@),
{
    let h = q.hybrid_search.as_ref().unwrap();
    assert(conditions_view(q.conditions@) == q@.conditions);
    let query_string = build_query_string(&q.conditions);
    let mut arguments: Vec<String> = Vec::new();
    push_lit(&mut arguments, "VSIM");
    let mut at = lit("@");
    push_str(&mut at, h.vector.field.as_str());
    push_arg(&mut arguments, at);
    push_lit(&mut arguments, "$BLOB");
    push_lit(&mut arguments, "KNN");
    push_lit(&mut arguments, "2");
    push_lit(&mut arguments, "K");
    push_arg(&mut arguments, string_of_nat(h.vector.k));
    push_lit(&mut arguments, "COMBINE");
    push_lit(&mut arguments, "LINEAR");
    push_lit(&mut arguments, "4");
    push_lit(&mut arguments, "ALPHA");
    push_arg(&mut arguments, h.vector_weight.to_display_string());
    push_lit(&mut arguments, "BETA");
    push_arg(&mut arguments, h.text_weight.to_display_string());
    let ghost head = strings_view(arguments@);
    append_args(&mut arguments, limit_arguments(&q.limit));
    append_args(&mut arguments, params_arguments(&h.vector.vector));
    let t = Translation {
        command: Command::Hybrid,
        index_name: q.index_name.clone(),
        query_string,
        arguments,
    };
    let ghost hs = q@.hybrid_search->0;
    assert(head =~= seq![
        "VSIM"@,
        "@"@ + hs.vector.field,
        "$BLOB"@,
        "KNN"@,
        "2"@,
        "K"@,
        nat_text(hs.vector.k as nat),
        "COMBINE"@,
        "LINEAR"@,
        "4"@,
        "ALPHA"@,
        display_text(hs.vector_weight),
        "BETA"@,
        display_text(hs.text_weight),
    ]);
    t
}

} // verus!

verus! {

fn at_string(f: &String) -> (r: String)
    ensures
        r@ == at_field(f@),
{
    let mut r = lit("@");
    push_str(&mut r, f.as_str());
    r
}

fn group_arguments(q: &SelectQuery) -> (args: Vec<String>)
    ensures
        strings_view(args@) == group_args(q@),
{
    let mut args: Vec<String> = Vec::new();
    push_lit(&mut args, "GROUPBY");
    match &q.group_by {
        Some(g) => {
            push_arg(&mut args, string_of_nat(g.fields.len()));
            let ghost head = strings_view(args@);
            let ghost fs = g@;
            let mut i: usize = 0;
            while i < g.fields.len()
                invariant
                    fs == g@,
                    i <= g.fields@.len(),
                    strings_view(args@) == head + fs.take(i as int).map_values(
                        |f: Seq<char>| at_field(f),
                    ),
                decreases g.fields@.len() - i,
            {
                assert(fs[i as int] == g.fields@[i as int]@);
                push_arg(&mut args, at_string(&g.fields[i]));
                assert(fs.take(i + 1).map_values(|f: Seq<char>| at_field(f)) =~= fs.take(
                    i as int,
                ).map_values(|f: Seq<char>| at_field(f)).push(at_field(fs[i as int])));
                i = i + 1;
            }
            assert(fs.take(fs.len() as int) == fs);
            assert(strings_view(args@) =~= group_args(q@));
        },
        None => {
            if q.distinct {
                push_arg(&mut args, string_of_nat(q.fields.len()));
                let ghost head = strings_view(args@);
                let ghost fs = q@.fields;
                let mut i: usize = 0;
                while i < q.fields.len()
                    invariant
                        fs == q@.fields,
                        i <= q.fields@.len(),
                        strings_view(args@) == head + fs.take(i as int).map_values(
                            |f: SpecSelectField| at_field(f.name),
                        ),
                    decreases q.fields@.len() - i,
                {
                    assert(fs[i as int] == q.fields@[i as int]@);
                    push_arg(&mut args, at_string(&q.fields[i].name));
                    assert(fs.take(i + 1).map_values(|f: SpecSelectField| at_field(f.name))
                        =~= fs.take(i as int).map_values(|f: SpecSelectField| at_field(f.name)).push(
                        at_field(fs[i as int].name),
                    ));
                    i = i + 1;
                }
                assert(fs.take(fs.len() as int) == fs);
                assert(strings_view(args@) =~= group_args(q@));
            } else {
                push_lit(&mut args, "0");
                assert(strings_view(args@) =~= group_args(q@));
            }
        },
    }
    args
}

fn reducer_stem_string(f: &AggregateFunction) -> (s: String)
    ensures
        s@ == reducer_stem(f@),
{
    match f {
        AggregateFunction::Count => lit("count"),
        AggregateFunction::Sum => lit("sum"),
        AggregateFunction::Avg => lit("avg"),
        AggregateFunction::Min => lit("min"),
        AggregateFunction::Max => lit("max"),
        AggregateFunction::CountDistinct => lit("count_distinct"),
        AggregateFunction::CountDistinctish => lit("count_distinctish"),
        AggregateFunction::Stddev => lit("stddev"),
        AggregateFunction::Quantile { .. } => lit("quantile"),
        AggregateFunction::Tolist => lit("tolist"),
        AggregateFunction::FirstValue { .. } => lit("first_value"),
        AggregateFunction::RandomSample { .. } => lit("random_sample"),
        AggregateFunction::Hll => lit("hll"),
        AggregateFunction::HllSum => lit("hll_sum"),
    }
}

fn percentile_token_string(p: &crate::sql_parser::number::Number) -> (s: String)
    ensures
        s@ == percentile_token(p@),
{
    let t = p.to_display_string();
    let cs = crate::sql_parser::text::chars_of(t.as_str());
    if cs.len() > 2 && cs[0] == '0' && cs[1] == '.' {
        let r = crate::sql_parser::text::string_of_range(cs.as_slice(), 2, cs.len());
        assert(cs@.subrange(2, cs@.len() as int) == cs@.skip(2));
        r
    } else {
        t
    }
}

fn default_alias_string(a: &AggregateExpr) -> (s: String)
    ensures
        s@ == default_alias(a@),
{
    let mut s = reducer_stem_string(&a.function);
    match &a.function {
        AggregateFunction::Quantile { percentile } => {
            push_str(&mut s, "_");
            push_str(&mut s, percentile_token_string(percentile).as_str());
        },
        AggregateFunction::RandomSample { size } => {
            push_str(&mut s, "_");
            push_str(&mut s, nat_string(*size as u128).as_str());
        },
        _ => {},
    }
    match &a.field {
        Some(f) => {
            push_str(&mut s, "_");
            push_str(&mut s, f.as_str());
        },
        None => {},
    }
    s
}

fn effective_alias_string(a: &AggregateExpr) -> (s: String)
    ensures
        s@ == effective_alias(a@),
{
    match &a.alias {
        Some(x) => x.clone(),
        None => default_alias_string(a),
    }
}

fn reducer_arguments(a: &AggregateExpr) -> (args: Vec<String>)
    ensures
        strings_view(args@) == reducer_args(a@),
{
    let mut params: Vec<String> = Vec::new();
    match &a.field {
        Some(f) => push_arg(&mut params, at_string(f)),
        None => {},
    }
    let ghost field_tokens = strings_view(params@);
    match &a.function {
        AggregateFunction::Quantile { percentile } => {
            push_arg(&mut params, percentile.to_display_string());
        },
        AggregateFunction::RandomSample { size } => {
            push_arg(&mut params, nat_string(*size as u128));
        },
        AggregateFunction::FirstValue { sort_field, ascending } => {
            push_lit(&mut params, "BY");
            push_arg(&mut params, at_string(sort_field));
            if *ascending {
                push_lit(&mut params, "ASC");
            } else {
                push_lit(&mut params, "DESC");
            }
        },
        _ => {},
    }
    assert(strings_view(params@) =~= reducer_params(a@));
    let mut args: Vec<String> = Vec::new();
    push_lit(&mut args, "REDUCE");
    push_arg(&mut args, a.function.display_string());
    push_arg(&mut args, string_of_nat(params.len()));
    append_args(&mut args, params);
    push_lit(&mut args, "AS");
    push_arg(&mut args, effective_alias_string(a));
    assert(strings_view(args@) =~= reducer_args(a@));
    args
}

pub open spec fn aggregates_view(aggs: Seq<AggregateExpr>) -> Seq<SpecAggregateExpr> {
    aggs.map_values(|a: AggregateExpr| a@)
}

fn reducers_arguments(aggs: &Vec<AggregateExpr>) -> (args: Vec<String>)
    ensures
        strings_view(args@) == reducers_args(aggregates_view(aggs@)),
{
    let ghost av = aggregates_view(aggs@);
    let mut args: Vec<String> = Vec::new();
    let mut i: usize = 0;
    while i < aggs.len()
        invariant
            av == aggregates_view(aggs@),
            i <= aggs@.len(),
            strings_view(args@) == reducers_args(av.take(i as int)),
        decreases aggs@.len() - i,
    {
        assert(av[i as int] == aggs@[i as int]@);
        assert(av.take(i + 1).drop_last() == av.take(i as int));
        assert(av.take(i + 1).last() == av[i as int]);
        append_args(&mut args, reducer_arguments(&aggs[i]));
        i = i + 1;
    }
    assert(av.take(av.len() as int) == av);
    args
}

fn resolve_name_string(aggs: &Vec<AggregateExpr>, name: &String) -> (s: String)
    ensures
        s@ == resolve_name(aggregates_view(aggs@), name@),
{
    let ghost av = aggregates_view(aggs@);
    assert(av.skip(0) == av);
    let mut i: usize = 0;
    while i < aggs.len()
        invariant
            av == aggregates_view(aggs@),
            i <= aggs@.len(),
            resolve_name(av, name@) == resolve_name(av.skip(i as int), name@),
        decreases aggs@.len() - i,
    {
        let d = default_alias_string(&aggs[i]);
        assert(av[i as int] == aggs@[i as int]@);
        assert(av.skip(i as int)[0] == av[i as int]);
        assert(av.skip(i as int).drop_first() == av.skip(i + 1));
        if d.eq(name) {
            return effective_alias_string(&aggs[i]);
        }
        i = i + 1;
    }
    name.clone()
}

fn filter_value_string(v: &Value) -> (s: String)
    ensures
        s@ == filter_value(v@),
{
    match v {
        Value::String(x) => {
            let mut s = lit("'");
            push_str(&mut s, x.as_str());
            push_str(&mut s, "'");
            s
        },
        Value::Number(n) => n.to_rql_string(),
    }
}

fn comparison_string(aggs: &Vec<AggregateExpr>, field: &String, op: &str, v: &Value) -> (s: String)
    ensures
        s@ == comparison(aggregates_view(aggs@), field@, op@, v@),
{
    let mut s = lit("@");
    push_str(&mut s, resolve_name_string(aggs, field).as_str());
    push_str(&mut s, op);
    push_str(&mut s, filter_value_string(v).as_str());
    s
}

/// The FILTER expression of a HAVING condition.
fn having_string(aggs: &Vec<AggregateExpr>, c: &Condition) -> (r: Option<String>)
    ensures
        match r {
            Some(s) => having_text(aggregates_view(aggs@), c@) == Some(s@),
            None => having_text(aggregates_view(aggs@), c@) is None,
        },
    decreases c,
{
    match c {
        Condition::GreaterThan { field, value } => Some(comparison_string(aggs, field, ">", value)),
        Condition::GreaterThanOrEqual { field, value } => Some(
            comparison_string(aggs, field, ">=", value),
        ),
        Condition::LessThan { field, value } => Some(comparison_string(aggs, field, "<", value)),
        Condition::LessThanOrEqual { field, value } => Some(
            comparison_string(aggs, field, "<=", value),
        ),
        Condition::Equals { field, value } => Some(comparison_string(aggs, field, "==", value)),
        Condition::NotEquals { field, value } => Some(comparison_string(aggs, field, "!=", value)),
        Condition::And(l, rt) => {
            match (having_string(aggs, l), having_string(aggs, rt)) {
                (Some(a), Some(b)) => {
                    let mut s = lit("(");
                    push_str(&mut s, a.as_str());
                    push_str(&mut s, " && ");
                    push_str(&mut s, b.as_str());
                    push_str(&mut s, ")");
                    Some(s)
                },
                _ => None,
            }
        },
        Condition::Or(l, rt) => {
            match (having_string(aggs, l), having_string(aggs, rt)) {
                (Some(a), Some(b)) => {
                    let mut s = lit("(");
                    push_str(&mut s, a.as_str());
                    push_str(&mut s, " || ");
                    push_str(&mut s, b.as_str());
                    push_str(&mut s, ")");
                    Some(s)
                },
                _ => None,
            }
        },
        _ => None,
    }
}

fn aggregate_sort_arguments(order_by: &Option<crate::sql_parser::ast::OrderBy>) -> (args: Vec<
    String,
>)
    ensures
        strings_view(args@) == aggregate_sort_args(order_view(*order_by)),
{
    let mut args: Vec<String> = Vec::new();
    match order_by {
        Some(ob) => {
            if ob.columns.len() > 0 {
                let ghost cols = ob@;
                let mut tokens: Vec<String> = Vec::new();
                let mut i: usize = 0;
                while i < ob.columns.len()
                    invariant
                        cols == ob@,
                        i <= ob.columns@.len(),
                        strings_view(tokens@) == aggregate_sort_tokens(cols.take(i as int)),
                    decreases ob.columns@.len() - i,
                {
                    let c = &ob.columns[i];
                    assert(cols[i as int] == c@);
                    assert(cols.take(i + 1).drop_last() == cols.take(i as int));
                    assert(cols.take(i + 1).last() == c@);
                    push_arg(&mut tokens, at_string(&c.field));
                    push_arg(&mut tokens, c.direction.display_string());
                    assert(strings_view(tokens@) =~= aggregate_sort_tokens(cols.take(i + 1)));
                    i = i + 1;
                }
                assert(cols.take(cols.len() as int) == cols);
                push_lit(&mut args, "SORTBY");
                push_arg(&mut args, nat_string(2 * (ob.columns.len() as u128)));
                append_args(&mut args, tokens);
            }
        },
        None => {},
    }
    assert(strings_view(args@) =~= aggregate_sort_args(order_view(*order_by)));
    args
}

/// `FT.AGGREGATE` arguments for the query.
fn aggregate_translate(q: &SelectQuery) -> (r: Result<Translation, SqlError>)
    ensures
        match r {
            Ok(t) => aggregate_translation(q@) == Ok::<SpecTranslation, SpecSqlError>(t@),
            Err(e) => aggregate_translation(q@) == Err::<SpecTranslation, SpecSqlError>(e@),
        },
{
    if q.vector_search.is_some() {
        return Err(
            SqlError::unsupported(
                "Vector search cannot be combined with DISTINCT, aggregate functions, GROUP BY or HAVING",
            ),
        );
    }
    assert(aggregates_view(q.aggregates@) == q@.aggregates);
    assert(conditions_view(q.conditions@) == q@.conditions);
    assert(order_view(q.order_by) == q@.order_by);
    let mut having_args: Vec<String> = Vec::new();
    match &q.having {
        Some(h) => {
            match having_string(&q.aggregates, h) {
                Some(t) => {
                    push_lit(&mut having_args, "FILTER");
                    push_arg(&mut having_args, t);
                },
                None => {
                    return Err(
                        SqlError::unsupported(
                            "Only comparisons combined with AND/OR are supported in HAVING clause",
                        ),
                    );
                },
            }
        },
        None => {},
    }
    let ghost hv = strings_view(having_args@);
    let query_string = build_query_string(&q.conditions);
    let mut arguments = group_arguments(q);
    append_args(&mut arguments, reducers_arguments(&q.aggregates));
    append_args(&mut arguments, having_args);
    append_args(&mut arguments, aggregate_sort_arguments(&q.order_by));
    append_args(&mut arguments, limit_arguments(&q.limit));
    let t = Translation {
        command: Command::Aggregate,
        index_name: q.index_name.clone(),
        query_string,
        arguments,
    };
    proof {
        match q@.having {
            Some(h) => {
                assert(hv =~= seq!["FILTER"@, having_text(q@.aggregates, h)->0]);
            },
            None => {
                assert(hv =~= Seq::<Seq<char>>::empty());
            },
        }
    }
    Ok(t)
}

fn is_text_only(caps: Option<FieldCapabilities>) -> (b: bool)
    ensures
        b == text_only(caps),
{
    match caps {
        Some(c) => c.supports_text_queries && !c.supports_tag_queries,
        None => false,
    }
}

fn has_string_value_exec(values: &Vec<Value>) -> (b: bool)
    ensures
        b == has_string_value(crate::sql_parser::ast::values_view(values@)),
{
    let ghost vs = crate::sql_parser::ast::values_view(values@);
    let mut i: usize = 0;
    while i < values.len()
        invariant
            vs == crate::sql_parser::ast::values_view(values@),
            i <= values@.len(),
            forall|k: int| 0 <= k < i ==> !is_string_value(#[trigger] vs[k]),
        decreases values@.len() - i,
    {
        assert(vs[i as int] == values@[i as int]@);
        match &values[i] {
            Value::String(_) => {
                assert(is_string_value(vs[i as int]));
                return true;
            },
            Value::Number(_) => {},
        }
        i = i + 1;
    }
    false
}

/// The first field of the condition that the schema declares TEXT only and
/// that the condition compares for equality with a string.
fn text_equality_field_exec(schema: &QuerySchema, c: &Condition) -> (r: Option<String>)
    ensures
        match r {
            Some(f) => text_equality_field(schema@, c@) == Some(f@),
            None => text_equality_field(schema@, c@) is None,
        },
    decreases c,
{
    match c {
        Condition::Equals { field, value } | Condition::NotEquals { field, value } => {
            let is_str = match value {
                Value::String(_) => true,
                Value::Number(_) => false,
            };
            if is_str && is_text_only(schema.field_capabilities(field.as_str())) {
                Some(field.clone())
            } else {
                None
            }
        },
        Condition::In { field, values, .. } => {
            if has_string_value_exec(values) && is_text_only(
                schema.field_capabilities(field.as_str()),
            ) {
                Some(field.clone())
            } else {
                None
            }
        },
        Condition::And(l, rt) | Condition::Or(l, rt) => {
            match text_equality_field_exec(schema, l) {
                Some(f) => Some(f),
                None => text_equality_field_exec(schema, rt),
            }
        },
        Condition::Not(inner) => text_equality_field_exec(schema, inner),
        _ => None,
    }
}

/// Translates a parsed query to RQL, first checking it against the schema.
pub fn translate_with_schema(query: SelectQuery, schema: &QuerySchema) -> (r: Result<
    Translation,
    SqlError,
>)
    ensures
        match r {
            Ok(t) => translate_spec(query@, schema@) == Ok::<SpecTranslation, SpecSqlError>(t@),
            Err(e) => translate_spec(query@, schema@) == Err::<SpecTranslation, SpecSqlError>(e@),
        },
{
    let ghost cs = query@.conditions;
    assert(conditions_view(query.conditions@) == cs);
    let mut i: usize = 0;
    while i < query.conditions.len()
        invariant
            cs == conditions_view(query.conditions@),
            i <= cs.len(),
            conditions_text_equality_field(schema@, cs.take(i as int)) is None,
        decreases cs.len() - i,
    {
        assert(cs.take(i + 1).drop_last() == cs.take(i as int));
        assert(cs[i as int] == query.conditions@[i as int]@);
        match text_equality_field_exec(schema, &query.conditions[i]) {
            Some(f) => {
                proof {
                    lemma_first_offender(schema@, cs, i as int);
                }
                let mut msg = lit("Equality on TEXT field '");
                push_str(&mut msg, f.as_str());
                push_str(
                    &mut msg,
                    "' is not supported: SQL has no full-text predicate such as MATCH; use a TAG field for exact matches",
                );
                assert(cs.take(cs.len() as int) == cs);
                assert(conditions_text_equality_field(schema@, cs.take(cs.len() as int)) == Some(
                    f@,
                ));
                assert(msg@ == text_equality_message(f@));
                return Err(SqlError::unsupported(msg));
            },
            None => {},
        }
        i = i + 1;
    }
    assert(cs.take(cs.len() as int) == cs);
    let aggregate = query.distinct || query.aggregates.len() > 0 || query.group_by.is_some()
        || query.having.is_some();
    if query.hybrid_search.is_some() {
        if aggregate {
            return Err(
                SqlError::unsupported(
                    "Hybrid search cannot be combined with DISTINCT, aggregate functions, GROUP BY or HAVING",
                ),
            );
        }
        Ok(hybrid_translate(&query))
    } else if aggregate {
        aggregate_translate(&query)
    } else {
        search_translate(&query)
    }
}

proof fn lemma_first_offender(schema: SpecQuerySchema, cs: Seq<SpecCondition>, i: int)
    requires
        0 <= i < cs.len(),
        conditions_text_equality_field(schema, cs.take(i)) is None,
        text_equality_field(schema, cs[i]) is Some,
    ensures
        forall|n: int|
            i < n <= cs.len() ==> #[trigger] conditions_text_equality_field(schema, cs.take(n))
                == text_equality_field(schema, cs[i]),
    decreases cs.len() - i,
{
    assert forall|n: int| i < n <= cs.len() implies #[trigger] conditions_text_equality_field(
        schema,
        cs.take(n),
    ) == text_equality_field(schema, cs[i]) by {
        lemma_prefix_offender(schema, cs, i, n);
    }
}

proof fn lemma_prefix_offender(schema: SpecQuerySchema, cs: Seq<SpecCondition>, i: int, n: int)
    requires
        0 <= i < n <= cs.len(),
        conditions_text_equality_field(schema, cs.take(i)) is None,
        text_equality_field(schema, cs[i]) is Some,
    ensures
        conditions_text_equality_field(schema, cs.take(n)) == text_equality_field(schema, cs[i]),
    decreases n - i,
{
    assert(cs.take(n).drop_last() == cs.take(n - 1));
    if n == i + 1 {
        assert(cs.take(n).last() == cs[i]);
    } else {
        lemma_prefix_offender(schema, cs, i, n - 1);
    }
}

/// Translates a parsed query to RQL without schema metadata.
pub fn translate(query: SelectQuery) -> (r: Result<Translation, SqlError>)
    ensures
        match r {
            Ok(t) => translate_spec(query@, crate::sql_parser::empty_schema()) == Ok::<
                SpecTranslation,
                SpecSqlError,
            >(t@),
            Err(e) => translate_spec(query@, crate::sql_parser::empty_schema()) == Err::<
                SpecTranslation,
                SpecSqlError,
            >(e@),
        },
{
    let schema = QuerySchema::empty();
    assert(schema@.fields =~= crate::sql_parser::empty_schema().fields);
    assert(schema@ == crate::sql_parser::empty_schema());
    translate_with_schema(query, &schema)
}

} // verus!
