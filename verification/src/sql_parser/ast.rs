//! Internal AST representation for SQL queries.
//!
//! A simplified AST that captures only the SQL constructs supported by the
//! RediSearch query language, with the mathematical model of each node.

use vstd::prelude::*;
use crate::sql_parser::error::IntoMessage;
use crate::sql_parser::number::{Number, SpecNumber, rql_text};

verus! {

/// A field in the SELECT clause.
#[derive(Debug, Clone)]
pub struct SelectField {
    /// The field name or expression.
    pub name: String,
    /// Optional alias (AS clause).
    pub alias: Option<String>,
}

pub struct SpecSelectField {
    pub name: Seq<char>,
    pub alias: Option<Seq<char>>,
}

pub open spec fn opt_view(o: Option<String>) -> Option<Seq<char>> {
    match o {
        Some(s) => Some(s@),
        None => None,
    }
}

impl View for SelectField {
    type V = SpecSelectField;

    open spec fn view(&self) -> SpecSelectField {
        SpecSelectField { name: self.name@, alias: opt_view(self.alias) }
    }
}

/// Supported aggregate functions.
#[derive(Debug, Clone)]
pub enum AggregateFunction {
    /// COUNT(*) or COUNT(field)
    Count,
    /// SUM(field)
    Sum,
    /// AVG(field)
    Avg,
    /// MIN(field)
    Min,
    /// MAX(field)
    Max,
    /// COUNT_DISTINCT(field) - exact unique count
    CountDistinct,
    /// COUNT_DISTINCTISH(field) - approximate unique count using HyperLogLog
    CountDistinctish,
    /// STDDEV(field) - standard deviation
    Stddev,
    /// QUANTILE(field, percentile) - percentile value (0.0-1.0)
    Quantile { percentile: Number },
    /// TOLIST(field) - collect all values into an array
    Tolist,
    /// FIRST_VALUE(field BY sort_field ASC|DESC) - first value when sorted
    FirstValue { sort_field: String, ascending: bool },
    /// RANDOM_SAMPLE(field, size) - random sample of values (max 1000)
    RandomSample { size: u32 },
    /// HLL(field) - returns raw HyperLogLog struct
    Hll,
    /// HLL_SUM(field) - merges HyperLogLog values
    HllSum,
}

pub enum SpecAggregateFunction {
    Count,
    Sum,
    Avg,
    Min,
    Max,
    CountDistinct,
    CountDistinctish,
    Stddev,
    Quantile { percentile: SpecNumber },
    Tolist,
    FirstValue { sort_field: Seq<char>, ascending: bool },
    RandomSample { size: u32 },
    Hll,
    HllSum,
}

impl View for AggregateFunction {
    type V = SpecAggregateFunction;

    open spec fn view(&self) -> SpecAggregateFunction {
        match self {
            AggregateFunction::Count => SpecAggregateFunction::Count,
            AggregateFunction::Sum => SpecAggregateFunction::Sum,
            AggregateFunction::Avg => SpecAggregateFunction::Avg,
            AggregateFunction::Min => SpecAggregateFunction::Min,
            AggregateFunction::Max => SpecAggregateFunction::Max,
            AggregateFunction::CountDistinct => SpecAggregateFunction::CountDistinct,
            AggregateFunction::CountDistinctish => SpecAggregateFunction::CountDistinctish,
            AggregateFunction::Stddev => SpecAggregateFunction::Stddev,
            AggregateFunction::Quantile { percentile } => SpecAggregateFunction::Quantile {
                percentile: percentile@,
            },
            AggregateFunction::Tolist => SpecAggregateFunction::Tolist,
            AggregateFunction::FirstValue { sort_field, ascending } =>
                SpecAggregateFunction::FirstValue { sort_field: sort_field@, ascending: *ascending },
            AggregateFunction::RandomSample { size } => SpecAggregateFunction::RandomSample {
                size: *size,
            },
            AggregateFunction::Hll => SpecAggregateFunction::Hll,
            AggregateFunction::HllSum => SpecAggregateFunction::HllSum,
        }
    }
}

/// The name a function is displayed as.
pub open spec fn aggregate_name(f: SpecAggregateFunction) -> Seq<char> {
    match f {
        SpecAggregateFunction::Count => "COUNT"@,
        SpecAggregateFunction::Sum => "SUM"@,
        SpecAggregateFunction::Avg => "AVG"@,
        SpecAggregateFunction::Min => "MIN"@,
        SpecAggregateFunction::Max => "MAX"@,
        SpecAggregateFunction::CountDistinct => "COUNT_DISTINCT"@,
        SpecAggregateFunction::CountDistinctish => "COUNT_DISTINCTISH"@,
        SpecAggregateFunction::Stddev => "STDDEV"@,
        SpecAggregateFunction::Quantile { .. } => "QUANTILE"@,
        SpecAggregateFunction::Tolist => "TOLIST"@,
        SpecAggregateFunction::FirstValue { .. } => "FIRST_VALUE"@,
        SpecAggregateFunction::RandomSample { .. } => "RANDOM_SAMPLE"@,
        SpecAggregateFunction::Hll => "HLL"@,
        SpecAggregateFunction::HllSum => "HLL_SUM"@,
    }
}

impl AggregateFunction {
    /// The RediSearch reducer name of the function.
    pub fn display_string(&self) -> (s: String)
        ensures
            s@ == aggregate_name(self@),
    {
        match self {
            AggregateFunction::Count => String::from_str("COUNT"),
            AggregateFunction::Sum => String::from_str("SUM"),
            AggregateFunction::Avg => String::from_str("AVG"),
            AggregateFunction::Min => String::from_str("MIN"),
            AggregateFunction::Max => String::from_str("MAX"),
            AggregateFunction::CountDistinct => String::from_str("COUNT_DISTINCT"),
            AggregateFunction::CountDistinctish => String::from_str("COUNT_DISTINCTISH"),
            AggregateFunction::Stddev => String::from_str("STDDEV"),
            AggregateFunction::Quantile { .. } => String::from_str("QUANTILE"),
            AggregateFunction::Tolist => String::from_str("TOLIST"),
            AggregateFunction::FirstValue { .. } => String::from_str("FIRST_VALUE"),
            AggregateFunction::RandomSample { .. } => String::from_str("RANDOM_SAMPLE"),
            AggregateFunction::Hll => String::from_str("HLL"),
            AggregateFunction::HllSum => String::from_str("HLL_SUM"),
        }
    }
}

/// An aggregate function expression.
#[derive(Debug, Clone)]
pub struct AggregateExpr {
    /// The aggregate function type.
    pub function: AggregateFunction,
    /// The field to aggregate (None for COUNT(*)).
    pub field: Option<String>,
    /// Optional alias.
    pub alias: Option<String>,
}

pub struct SpecAggregateExpr {
    pub function: SpecAggregateFunction,
    pub field: Option<Seq<char>>,
    pub alias: Option<Seq<char>>,
}

impl View for AggregateExpr {
    type V = SpecAggregateExpr;

    open spec fn view(&self) -> SpecAggregateExpr {
        SpecAggregateExpr {
            function: self.function@,
            field: opt_view(self.field),
            alias: opt_view(self.alias),
        }
    }
}

/// GROUP BY clause.
#[derive(Debug, Clone)]
pub struct GroupBy {
    /// Fields to group by.
    pub fields: Vec<String>,
}

pub open spec fn strings_view(v: Seq<String>) -> Seq<Seq<char>> {
    v.map_values(|s: String| s@)
}

impl View for GroupBy {
    type V = Seq<Seq<char>>;

    open spec fn view(&self) -> Seq<Seq<char>> {
        strings_view(self.fields@)
    }
}

/// Distance metric for vector similarity search.
#[derive(Debug, Clone, Copy, PartialEq, Eq, Structural)]
pub enum DistanceMetric {
    /// L2 (Euclidean) distance - operator `<->`
    L2,
    /// Cosine distance - operator `<=>`
    Cosine,
    /// Inner product - operator `<#>`
    InnerProduct,
}

pub open spec fn metric_name(m: DistanceMetric) -> Seq<char> {
    match m {
        DistanceMetric::L2 => "L2"@,
        DistanceMetric::Cosine => "COSINE"@,
        DistanceMetric::InnerProduct => "IP"@,
    }
}

impl DistanceMetric {
    /// The name RediSearch gives the metric.
    pub fn display_string(&self) -> (s: String)
        ensures
            s@ == metric_name(*self),
    {
        match self {
            DistanceMetric::L2 => String::from_str("L2"),
            DistanceMetric::Cosine => String::from_str("COSINE"),
            DistanceMetric::InnerProduct => String::from_str("IP"),
        }
    }

    /// The default metric, L2.
    pub fn default_metric() -> (m: DistanceMetric)
        ensures
            m == DistanceMetric::L2,
    {
        DistanceMetric::L2
    }
}

/// Vector search configuration for KNN queries.
#[derive(Debug, Clone)]
pub struct VectorSearch {
    /// The vector field name (e.g., "embedding").
    pub field: String,
    /// The vector blob (as string representation, e.g., "[0.1, 0.2, 0.3]").
    pub vector: String,
    /// Number of nearest neighbors to return (K).
    pub k: usize,
    /// Distance metric requested by the SQL operator.
    pub distance_metric: DistanceMetric,
}

pub struct SpecVectorSearch {
    pub field: Seq<char>,
    pub vector: Seq<char>,
    pub k: usize,
    pub distance_metric: DistanceMetric,
}

impl View for VectorSearch {
    type V = SpecVectorSearch;

    open spec fn view(&self) -> SpecVectorSearch {
        SpecVectorSearch {
            field: self.field@,
            vector: self.vector@,
            k: self.k,
            distance_metric: self.distance_metric,
        }
    }
}

/// Hybrid search configuration combining text and vector search.
#[derive(Debug, Clone)]
pub struct HybridSearch {
    /// Vector field configuration.
    pub vector: VectorSearch,
    /// Weight for vector scoring (0.0 to 1.0).
    pub vector_weight: Number,
    /// Weight for text scoring (0.0 to 1.0).
    pub text_weight: Number,
}

pub struct SpecHybridSearch {
    pub vector: SpecVectorSearch,
    pub vector_weight: SpecNumber,
    pub text_weight: SpecNumber,
}

impl View for HybridSearch {
    type V = SpecHybridSearch;

    open spec fn view(&self) -> SpecHybridSearch {
        SpecHybridSearch {
            vector: self.vector@,
            vector_weight: self.vector_weight@,
            text_weight: self.text_weight@,
        }
    }
}

/// A value in a SQL expression.
#[derive(Debug, Clone)]
pub enum Value {
    /// A string literal.
    String(String),
    /// A numeric literal (integer or decimal).
    Number(Number),
}

pub enum SpecValue {
    Str(Seq<char>),
    Num(SpecNumber),
}

impl View for Value {
    type V = SpecValue;

    open spec fn view(&self) -> SpecValue {
        match self {
            Value::String(s) => SpecValue::Str(s@),
            Value::Number(n) => SpecValue::Num(n@),
        }
    }
}

/// The text of a value in RQL.
pub open spec fn value_text(v: SpecValue) -> Seq<char> {
    match v {
        SpecValue::Str(s) => s,
        SpecValue::Num(n) => rql_text(n),
    }
}

impl Value {
    /// Converts the value to a string representation suitable for RQL.
    pub fn to_rql_string(&self) -> (s: String)
        ensures
            s@ == value_text(self@),
    {
        match self {
            Value::String(s) => s.clone(),
            Value::Number(n) => n.to_rql_string(),
        }
    }
}

pub open spec fn values_view(v: Seq<Value>) -> Seq<SpecValue> {
    v.map_values(|x: Value| x@)
}

/// A single condition in the WHERE clause.
#[derive(Debug)]
pub enum Condition {
    /// Equality: field = value
    Equals { field: String, value: Value },
    /// Greater than: field > value
    GreaterThan { field: String, value: Value },
    /// Greater than or equal: field >= value
    GreaterThanOrEqual { field: String, value: Value },
    /// Less than: field < value
    LessThan { field: String, value: Value },
    /// Less than or equal: field <= value
    LessThanOrEqual { field: String, value: Value },
    /// Between: field BETWEEN low AND high
    Between { field: String, low: Value, high: Value },
    /// In: field IN (value1, value2, ...)
    In { field: String, values: Vec<Value>, negated: bool },
    /// Not equals: field != value (or field <> value)
    NotEquals { field: String, value: Value },
    /// Like pattern: field LIKE 'pattern%'
    Like { field: String, pattern: String, negated: bool },
    /// Is null: field IS NULL
    IsNull { field: String, negated: bool },
    /// AND expression: combines conditions with AND
    And(Box<Condition>, Box<Condition>),
    /// OR expression: combines conditions with OR
    Or(Box<Condition>, Box<Condition>),
    /// NOT expression: negates a condition
    Not(Box<Condition>),
}

pub enum SpecCondition {
    Equals { field: Seq<char>, value: SpecValue },
    GreaterThan { field: Seq<char>, value: SpecValue },
    GreaterThanOrEqual { field: Seq<char>, value: SpecValue },
    LessThan { field: Seq<char>, value: SpecValue },
    LessThanOrEqual { field: Seq<char>, value: SpecValue },
    Between { field: Seq<char>, low: SpecValue, high: SpecValue },
    In { field: Seq<char>, values: Seq<SpecValue>, negated: bool },
    NotEquals { field: Seq<char>, value: SpecValue },
    Like { field: Seq<char>, pattern: Seq<char>, negated: bool },
    IsNull { field: Seq<char>, negated: bool },
    And(Box<SpecCondition>, Box<SpecCondition>),
    Or(Box<SpecCondition>, Box<SpecCondition>),
    Not(Box<SpecCondition>),
}

pub open spec fn condition_view(c: Condition) -> SpecCondition
    decreases c,
{
    match c {
        Condition::Equals { field, value } => SpecCondition::Equals { field: field@, value: value@ },
        Condition::GreaterThan { field, value } => SpecCondition::GreaterThan {
            field: field@,
            value: value@,
        },
        Condition::GreaterThanOrEqual { field, value } => SpecCondition::GreaterThanOrEqual {
            field: field@,
            value: value@,
        },
        Condition::LessThan { field, value } => SpecCondition::LessThan {
            field: field@,
            value: value@,
        },
        Condition::LessThanOrEqual { field, value } => SpecCondition::LessThanOrEqual {
            field: field@,
            value: value@,
        },
        Condition::Between { field, low, high } => SpecCondition::Between {
            field: field@,
            low: low@,
            high: high@,
        },
        Condition::In { field, values, negated } => SpecCondition::In {
            field: field@,
            values: values_view(values@),
            negated,
        },
        Condition::NotEquals { field, value } => SpecCondition::NotEquals {
            field: field@,
            value: value@,
        },
        Condition::Like { field, pattern, negated } => SpecCondition::Like {
            field: field@,
            pattern: pattern@,
            negated,
        },
        Condition::IsNull { field, negated } => SpecCondition::IsNull { field: field@, negated },
        Condition::And(l, r) => SpecCondition::And(
            Box::new(condition_view(*l)),
            Box::new(condition_view(*r)),
        ),
        Condition::Or(l, r) => SpecCondition::Or(
            Box::new(condition_view(*l)),
            Box::new(condition_view(*r)),
        ),
        Condition::Not(inner) => SpecCondition::Not(Box::new(condition_view(*inner))),
    }
}

impl View for Condition {
    type V = SpecCondition;

    open spec fn view(&self) -> SpecCondition {
        condition_view(*self)
    }
}

/// The field a condition applies to; for AND/OR the left side's.
pub open spec fn condition_field(c: SpecCondition) -> Seq<char>
    decreases c,
{
    match c {
        SpecCondition::Equals { field, .. } => field,
        SpecCondition::GreaterThan { field, .. } => field,
        SpecCondition::GreaterThanOrEqual { field, .. } => field,
        SpecCondition::LessThan { field, .. } => field,
        SpecCondition::LessThanOrEqual { field, .. } => field,
        SpecCondition::Between { field, .. } => field,
        SpecCondition::In { field, .. } => field,
        SpecCondition::NotEquals { field, .. } => field,
        SpecCondition::Like { field, .. } => field,
        SpecCondition::IsNull { field, .. } => field,
        SpecCondition::And(l, _) => condition_field(*l),
        SpecCondition::Or(l, _) => condition_field(*l),
        SpecCondition::Not(inner) => condition_field(*inner),
    }
}

/// A copy of a value.
pub fn duplicate_value(v: &Value) -> (r: Value)
    ensures
        r@ == v@,
{
    match v {
        Value::String(s) => Value::String(s.clone()),
        Value::Number(n) => Value::Number(n.duplicate()),
    }
}

fn duplicate_values(vs: &Vec<Value>) -> (r: Vec<Value>)
    ensures
        values_view(r@) == values_view(vs@),
{
    let mut r: Vec<Value> = Vec::new();
    let mut i: usize = 0;
    while i < vs.len()
        invariant
            i <= vs@.len(),
            r@.len() == i,
            forall|k: int| 0 <= k < i ==> (#[trigger] r@[k])@ == vs@[k]@,
        decreases vs@.len() - i,
    {
        r.push(duplicate_value(&vs[i]));
        i = i + 1;
    }
    assert(values_view(r@) =~= values_view(vs@));
    r
}

/// A copy of a condition.
pub fn duplicate_condition(c: &Condition) -> (r: Condition)
    ensures
        r@ == c@,
    decreases c,
{
    match c {
        Condition::Equals { field, value } => Condition::Equals { field: field.clone(), value: duplicate_value(value) },
        Condition::GreaterThan { field, value } => Condition::GreaterThan { field: field.clone(), value: duplicate_value(value) },
        Condition::GreaterThanOrEqual { field, value } => Condition::GreaterThanOrEqual { field: field.clone(), value: duplicate_value(value) },
        Condition::LessThan { field, value } => Condition::LessThan { field: field.clone(), value: duplicate_value(value) },
        Condition::LessThanOrEqual { field, value } => Condition::LessThanOrEqual { field: field.clone(), value: duplicate_value(value) },
        Condition::Between { field, low, high } => Condition::Between {
            field: field.clone(),
            low: duplicate_value(low),
            high: duplicate_value(high),
        },
        Condition::In { field, values, negated } => Condition::In {
            field: field.clone(),
            values: duplicate_values(values),
            negated: *negated,
        },
        Condition::NotEquals { field, value } => Condition::NotEquals { field: field.clone(), value: duplicate_value(value) },
        Condition::Like { field, pattern, negated } => Condition::Like {
            field: field.clone(),
            pattern: pattern.clone(),
            negated: *negated,
        },
        Condition::IsNull { field, negated } => Condition::IsNull { field: field.clone(), negated: *negated },
        Condition::And(l, r) => Condition::And(Box::new(duplicate_condition(l)), Box::new(duplicate_condition(r))),
        Condition::Or(l, r) => Condition::Or(Box::new(duplicate_condition(l)), Box::new(duplicate_condition(r))),
        Condition::Not(inner) => Condition::Not(Box::new(duplicate_condition(inner))),
    }
}

impl Clone for Condition {
    fn clone(&self) -> (r: Condition)
        ensures
            r@ == self@,
    {
        duplicate_condition(self)
    }
}

impl Condition {
    /// Returns the field name this condition applies to.
    /// For AND and OR conditions, returns the field from the left side.
    pub fn field(&self) -> (f: &str)
        ensures
            f@ == condition_field(self@),
        decreases self,
    {
        match self {
            Condition::Equals { field, .. } => field.as_str(),
            Condition::GreaterThan { field, .. } => field.as_str(),
            Condition::GreaterThanOrEqual { field, .. } => field.as_str(),
            Condition::LessThan { field, .. } => field.as_str(),
            Condition::LessThanOrEqual { field, .. } => field.as_str(),
            Condition::Between { field, .. } => field.as_str(),
            Condition::In { field, .. } => field.as_str(),
            Condition::NotEquals { field, .. } => field.as_str(),
            Condition::Like { field, .. } => field.as_str(),
            Condition::IsNull { field, .. } => field.as_str(),
            Condition::And(left, _) => left.field(),
            Condition::Or(left, _) => left.field(),
            Condition::Not(inner) => inner.field(),
        }
    }
}

/// Sort direction for ORDER BY.
#[derive(Debug, Clone, Copy, PartialEq, Eq, Structural)]
pub enum SortDirection {
    /// Ascending order.
    Asc,
    /// Descending order.
    Desc,
}

pub open spec fn direction_text(d: SortDirection) -> Seq<char> {
    match d {
        SortDirection::Asc => "ASC"@,
        SortDirection::Desc => "DESC"@,
    }
}

impl SortDirection {
    /// `ASC` or `DESC`.
    pub fn display_string(&self) -> (s: String)
        ensures
            s@ == direction_text(*self),
    {
        match self {
            SortDirection::Asc => String::from_str("ASC"),
            SortDirection::Desc => String::from_str("DESC"),
        }
    }
}

/// A single ORDER BY column with direction.
#[derive(Debug, Clone)]
pub struct OrderByColumn {
    /// Field to sort by.
    pub field: String,
    /// Sort direction.
    pub direction: SortDirection,
}

pub struct SpecOrderByColumn {
    pub field: Seq<char>,
    pub direction: SortDirection,
}

impl View for OrderByColumn {
    type V = SpecOrderByColumn;

    open spec fn view(&self) -> SpecOrderByColumn {
        SpecOrderByColumn { field: self.field@, direction: self.direction }
    }
}

/// ORDER BY clause supporting multiple columns.
#[derive(Debug, Clone)]
pub struct OrderBy {
    /// Columns to sort by, in order of precedence.
    pub columns: Vec<OrderByColumn>,
}

impl View for OrderBy {
    type V = Seq<SpecOrderByColumn>;

    open spec fn view(&self) -> Seq<SpecOrderByColumn> {
        self.columns@.map_values(|c: OrderByColumn| c@)
    }
}

impl OrderBy {
    /// Create a new OrderBy with a single column.
    pub fn single<M: IntoMessage>(field: M, direction: SortDirection) -> (o: OrderBy)
        ensures
            o@ == seq![SpecOrderByColumn { field: field.message_view(), direction }],
    {
        let mut columns = Vec::new();
        columns.push(OrderByColumn { field: field.into_message(), direction });
        let o = OrderBy { columns };
        assert(o@ =~= seq![SpecOrderByColumn { field: field.message_view(), direction }]);
        o
    }

    /// Get the first column (for simple cases).
    pub fn first(&self) -> (c: Option<&OrderByColumn>)
        ensures
            self.columns@.len() == 0 ==> c is None,
            self.columns@.len() > 0 ==> c == Some(&self.columns@[0]),
    {
        if self.columns.len() == 0 {
            None
        } else {
            Some(&self.columns[0])
        }
    }
}

/// LIMIT clause.
#[derive(Debug, Clone, Copy)]
pub struct Limit {
    /// Maximum number of results to return.
    pub count: u64,
    /// Number of results to skip (OFFSET).
    pub offset: u64,
}

impl SelectField {
    /// Create a new SelectField.
    pub fn new<M: IntoMessage>(name: M) -> (f: SelectField)
        ensures
            f@ == (SpecSelectField { name: name.message_view(), alias: None }),
    {
        SelectField { name: name.into_message(), alias: None }
    }

    /// Create a new SelectField with alias.
    pub fn with_alias<M: IntoMessage, N: IntoMessage>(name: M, alias: N) -> (f: SelectField)
        ensures
            f@ == (SpecSelectField { name: name.message_view(), alias: Some(alias.message_view()) }),
    {
        SelectField { name: name.into_message(), alias: Some(alias.into_message()) }
    }
}

/// A simplified SELECT query representation.
#[derive(Debug, Clone)]
pub struct SelectQuery {
    /// Fields to return. Empty means SELECT *.
    pub fields: Vec<SelectField>,
    /// The index name (from FROM clause).
    pub index_name: String,
    /// WHERE clause conditions.
    pub conditions: Vec<Condition>,
    /// ORDER BY clause.
    pub order_by: Option<OrderBy>,
    /// LIMIT clause.
    pub limit: Option<Limit>,
    /// Whether DISTINCT was specified.
    pub distinct: bool,
    /// Aggregate functions in SELECT clause.
    pub aggregates: Vec<AggregateExpr>,
    /// GROUP BY clause.
    pub group_by: Option<GroupBy>,
    /// HAVING clause (filter on aggregates).
    pub having: Option<Condition>,
    /// Vector KNN search (ORDER BY field <-> vector).
    pub vector_search: Option<VectorSearch>,
    /// Hybrid search configuration.
    pub hybrid_search: Option<HybridSearch>,
}

pub struct SpecSelectQuery {
    pub fields: Seq<SpecSelectField>,
    pub index_name: Seq<char>,
    pub conditions: Seq<SpecCondition>,
    pub order_by: Option<Seq<SpecOrderByColumn>>,
    pub limit: Option<Limit>,
    pub distinct: bool,
    pub aggregates: Seq<SpecAggregateExpr>,
    pub group_by: Option<Seq<Seq<char>>>,
    pub having: Option<SpecCondition>,
    pub vector_search: Option<SpecVectorSearch>,
    pub hybrid_search: Option<SpecHybridSearch>,
}

impl View for SelectQuery {
    type V = SpecSelectQuery;

    open spec fn view(&self) -> SpecSelectQuery {
        SpecSelectQuery {
            fields: self.fields@.map_values(|f: SelectField| f@),
            index_name: self.index_name@,
            conditions: self.conditions@.map_values(|c: Condition| c@),
            order_by: match self.order_by {
                Some(o) => Some(o@),
                None => None,
            },
            limit: self.limit,
            distinct: self.distinct,
            aggregates: self.aggregates@.map_values(|a: AggregateExpr| a@),
            group_by: match self.group_by {
                Some(g) => Some(g@),
                None => None,
            },
            having: match self.having {
                Some(h) => Some(h@),
                None => None,
            },
            vector_search: match self.vector_search {
                Some(v) => Some(v@),
                None => None,
            },
            hybrid_search: match self.hybrid_search {
                Some(h) => Some(h@),
                None => None,
            },
        }
    }
}

/// A query over the named index with nothing else set.
pub open spec fn empty_query(index_name: Seq<char>) -> SpecSelectQuery {
    SpecSelectQuery {
        fields: Seq::empty(),
        index_name,
        conditions: Seq::empty(),
        order_by: None,
        limit: None,
        distinct: false,
        aggregates: Seq::empty(),
        group_by: None,
        having: None,
        vector_search: None,
        hybrid_search: None,
    }
}

impl SelectQuery {
    /// Create a new SelectQuery with an index name.
    pub fn new<M: IntoMessage>(index_name: M) -> (q: SelectQuery)
        ensures
            q@ == empty_query(index_name.message_view()),
    {
        let q = SelectQuery {
            fields: Vec::new(),
            index_name: index_name.into_message(),
            conditions: Vec::new(),
            order_by: None,
            limit: None,
            distinct: false,
            aggregates: Vec::new(),
            group_by: None,
            having: None,
            vector_search: None,
            hybrid_search: None,
        };
        assert(q@.fields =~= Seq::<SpecSelectField>::empty());
        assert(q@.conditions =~= Seq::<SpecCondition>::empty());
        assert(q@.aggregates =~= Seq::<SpecAggregateExpr>::empty());
        q
    }

    /// Add a field to the query.
    pub fn with_field<M: IntoMessage>(self, name: M) -> (q: SelectQuery)
        ensures
            q@ == (SpecSelectQuery {
                fields: self@.fields.push(SpecSelectField { name: name.message_view(), alias: None }),
                ..self@
            }),
    {
        let mut q = self;
        q.fields.push(SelectField { name: name.into_message(), alias: None });
        assert(q@.fields =~= self@.fields.push(
            SpecSelectField { name: name.message_view(), alias: None },
        ));
        q
    }

    /// Add a field with alias to the query.
    pub fn with_field_alias<M: IntoMessage, N: IntoMessage>(self, name: M, alias: N) -> (q:
        SelectQuery)
        ensures
            q@ == (SpecSelectQuery {
                fields: self@.fields.push(
                    SpecSelectField { name: name.message_view(), alias: Some(alias.message_view()) },
                ),
                ..self@
            }),
    {
        let mut q = self;
        q.fields.push(SelectField { name: name.into_message(), alias: Some(alias.into_message()) });
        assert(q@.fields =~= self@.fields.push(
            SpecSelectField { name: name.message_view(), alias: Some(alias.message_view()) },
        ));
        q
    }

    /// Add a condition to the query.
    pub fn with_condition(self, condition: Condition) -> (q: SelectQuery)
        ensures
            q@ == (SpecSelectQuery { conditions: self@.conditions.push(condition@), ..self@ }),
    {
        let mut q = self;
        q.conditions.push(condition);
        assert(q@.conditions =~= self@.conditions.push(condition@));
        q
    }
}

} // verus!
