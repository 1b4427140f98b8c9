//! The SQL syntax tree that the parser reads, as plain values.
//!
//! `sqlparser` builds a syntax tree of its own types. The parts of it that the
//! translation reads are carried over, node for node, into the types of this
//! module; every expression also keeps its `Debug` text, which error messages
//! quote.

use vstd::prelude::*;
use crate::sql_parser::text::{char_is_alnum, char_lower, chars_of, lower, lower_seq};
use crate::sql_parser::parser::preprocessor::is_word_char;
use sqlparser::ast::{
    BinaryOperator, Distinct, Expr, Function, FunctionArg, FunctionArgExpr, FunctionArguments,
    GroupByExpr, OrderByExpr, Query, Select, SelectItem, SetExpr, Statement, TableFactor,
    TableWithJoins, UnaryOperator,
};
use sqlparser::ast::Value as LiteralValue;
use sqlparser::dialect::PostgreSqlDialect;
use sqlparser::parser::Parser;

verus! {

/// A literal value.
#[derive(Debug)]
pub enum SqlValue {
    /// A numeric literal, as written.
    Number(String),
    /// `'text'`
    SingleQuoted(String),
    /// `"text"`
    DoubleQuoted(String),
    /// Any other literal, by its `Debug` text.
    Other(String),
}

/// The kind of a binary operator.
#[derive(Debug)]
pub enum SqlBinaryOpKind {
    Eq,
    NotEq,
    Gt,
    GtEq,
    Lt,
    LtEq,
    And,
    Or,
    /// `<=>`
    Spaceship,
    /// A custom operator such as `<->` or `<#>`.
    Custom(String),
    /// `OPERATOR(...)`, by the parts of its name.
    PgCustom(Vec<String>),
    Other,
}

/// A binary operator with its `Debug` text.
#[derive(Debug)]
pub struct SqlBinaryOp {
    pub kind: SqlBinaryOpKind,
    pub debug: String,
}

/// An argument of a function call.
#[derive(Debug)]
pub enum SqlFunctionArg {
    /// An unnamed `*`.
    Wildcard,
    /// An unnamed expression.
    Expr(SqlExpr),
    /// A named or qualified argument.
    Other,
}

/// The arguments of a function call.
#[derive(Debug)]
pub enum SqlFunctionArgs {
    /// No parentheses at all.
    Absent,
    /// A subquery as the sole argument.
    Subquery,
    /// A parenthesized list.
    List(Vec<SqlFunctionArg>),
}

/// A function call.
#[derive(Debug)]
pub struct SqlFunction {
    /// The function's name as SQL prints it.
    pub name: String,
    pub args: SqlFunctionArgs,
}

/// The kind of an expression.
#[derive(Debug)]
pub enum SqlExprKind {
    Identifier(String),
    /// `a.b.c`, by its parts.
    CompoundIdentifier(Vec<String>),
    Literal(SqlValue),
    BinaryOp { left: Box<SqlExpr>, op: SqlBinaryOp, right: Box<SqlExpr> },
    Between { expr: Box<SqlExpr>, low: Box<SqlExpr>, high: Box<SqlExpr>, negated: bool },
    InList { expr: Box<SqlExpr>, list: Vec<SqlExpr>, negated: bool },
    /// A parenthesized expression.
    Nested(Box<SqlExpr>),
    Like { expr: Box<SqlExpr>, pattern: Box<SqlExpr>, negated: bool },
    IsNull(Box<SqlExpr>),
    IsNotNull(Box<SqlExpr>),
    /// `NOT e`
    Not(Box<SqlExpr>),
    /// `-e`
    Minus(Box<SqlExpr>),
    Function(SqlFunction),
    /// `[e, ...]`
    Array(Vec<SqlExpr>),
    Other,
}

/// An expression with its `Debug` text.
#[derive(Debug)]
pub struct SqlExpr {
    pub kind: SqlExprKind,
    pub debug: String,
}

/// An item of the SELECT list.
#[derive(Debug)]
pub enum SqlSelectItem {
    /// `*`
    Wildcard,
    Unnamed(SqlExpr),
    Aliased { expr: SqlExpr, alias: String },
    /// A qualified wildcard, by its `Debug` text.
    Other(String),
}

/// An entry of the FROM list.
#[derive(Debug)]
pub struct SqlTableWithJoins {
    /// The table's name as SQL prints it, for a plain table reference.
    pub table_name: Option<String>,
    /// Number of joins attached to the entry.
    pub joins: usize,
}

/// The GROUP BY clause.
#[derive(Debug)]
pub enum SqlGroupBy {
    /// `GROUP BY ALL`
    All,
    /// `GROUP BY e, ...`, possibly empty.
    Expressions(Vec<SqlExpr>),
}

/// An ORDER BY expression.
#[derive(Debug)]
pub struct SqlOrderByExpr {
    pub expr: SqlExpr,
    /// `Some(true)` for ASC, `Some(false)` for DESC.
    pub asc: Option<bool>,
}

/// A SELECT.
#[derive(Debug)]
pub struct SqlSelect {
    /// `None`, or whether it is `DISTINCT ON (...)` rather than plain `DISTINCT`.
    pub distinct_on: Option<bool>,
    pub projection: Vec<SqlSelectItem>,
    pub from: Vec<SqlTableWithJoins>,
    pub selection: Option<SqlExpr>,
    pub group_by: SqlGroupBy,
    pub having: Option<SqlExpr>,
}

/// The body of a query: a SELECT or something else.
#[derive(Debug)]
pub enum SqlSetExpr {
    Select(SqlSelect),
    Other,
}

/// A query.
#[derive(Debug)]
pub struct SqlQuery {
    pub body: SqlSetExpr,
    pub order_by: Option<Vec<SqlOrderByExpr>>,
    pub limit: Option<SqlExpr>,
    /// The OFFSET value.
    pub offset: Option<SqlExpr>,
}

/// A statement: a query or something else.
#[derive(Debug)]
pub enum SqlStatement {
    Query(SqlQuery),
    Other,
}

#[verifier::external_type_specification]
#[verifier::external_body]
pub struct ExStatement(Statement);

#[verifier::external_type_specification]
#[verifier::external_body]
pub struct ExQuery(Query);

#[verifier::external_type_specification]
#[verifier::external_body]
pub struct ExSelect(Select);

#[verifier::external_type_specification]
#[verifier::external_body]
pub struct ExSelectItem(SelectItem);

#[verifier::external_type_specification]
#[verifier::external_body]
pub struct ExTableWithJoins(TableWithJoins);

#[verifier::external_type_specification]
#[verifier::external_body]
pub struct ExGroupByExpr(GroupByExpr);

#[verifier::external_type_specification]
#[verifier::external_body]
pub struct ExOrderByExpr(OrderByExpr);

#[verifier::external_type_specification]
#[verifier::external_body]
pub struct ExExpr(Expr);

#[verifier::external_type_specification]
#[verifier::external_body]
pub struct ExValue(LiteralValue);

#[verifier::external_type_specification]
#[verifier::external_body]
pub struct ExBinaryOperator(BinaryOperator);

#[verifier::external_type_specification]
#[verifier::external_body]
pub struct ExFunction(Function);

#[verifier::external_type_specification]
#[verifier::external_body]
pub struct ExFunctionArg(FunctionArg);

/// Whether `w` occurs in `s` as a whole word (not next to an ASCII letter,
/// digit or `_`), ASCII letters compared in lower case.
pub open spec fn has_word(s: Seq<char>, w: Seq<char>) -> bool {
    exists|i: int| #[trigger] word_at(s, w, i)
}

/// Whether `w` stands in `s` at position `i` as a whole word.
pub open spec fn word_at(s: Seq<char>, w: Seq<char>, i: int) -> bool {
    &&& 0 <= i && i + w.len() <= s.len()
    &&& lower_seq(s.subrange(i, i + w.len())) == w
    &&& i == 0 || !is_word_char(s[i - 1])
    &&& i + w.len() == s.len() || !is_word_char(s[i + w.len()])
}

/// Whether `sqlparser` can be handed the text without reaching one of the
/// places where it panics. It panics on `GRANTED BY` followed by a token that
/// is not an identifier in a GRANT or REVOKE statement, and on `FOR CHANNEL`
/// followed by something that is not a name in a FLUSH statement; such a text
/// holds the words GRANTED and GRANT or REVOKE, or the words CHANNEL and FLUSH.
pub open spec fn parser_safe(s: Seq<char>) -> bool {
    &&& !(has_word(s, "granted"@) && (has_word(s, "grant"@) || has_word(s, "revoke"@)))
    &&& !(has_word(s, "channel"@) && has_word(s, "flush"@))
}

/// Whether `w` (lower-case ASCII) stands in `s` at position `i` as a whole word.
fn word_at_exec(s: &Vec<char>, w: &Vec<char>, i: usize) -> (r: bool)
    requires
        i <= s@.len(),
    ensures
        r == word_at(s@, w@, i as int),
{
    if s.len() - i < w.len() {
        return false;
    }
    let mut j: usize = 0;
    while j < w.len()
        invariant
            i + w@.len() <= s@.len(),
            s@.len() <= usize::MAX,
            j <= w@.len(),
            forall|k: int| 0 <= k < j ==> lower(s@[i + k]) == w@[k],
        decreases w@.len() - j,
    {
        if char_lower(s[i + j]) != w[j] {
            assert(lower_seq(s@.subrange(i as int, i + w@.len()))[j as int] != w@[j as int]);
            return false;
        }
        j = j + 1;
    }
    assert(lower_seq(s@.subrange(i as int, i + w@.len())) =~= w@);
    let prev_ok = i == 0 || !(char_is_alnum(s[i - 1]) || s[i - 1] == '_');
    let next_ok = i + w.len() == s.len() || !(char_is_alnum(s[i + w.len()]) || s[i + w.len()] == '_');
    prev_ok && next_ok
}

fn has_word_exec(s: &Vec<char>, w: &str) -> (r: bool)
    ensures
        r == has_word(s@, w@),
{
    let wv = chars_of(w);
    let mut i: usize = 0;
    while i < s.len()
        invariant
            wv@ == w@,
            i <= s@.len(),
            forall|k: int| 0 <= k < i ==> !word_at(s@, w@, k),
        decreases s@.len() - i,
    {
        if word_at_exec(s, &wv, i) {
            return true;
        }
        i = i + 1;
    }
    word_at_exec(s, &wv, i)
}

/// Whether the text can be handed to `sqlparser` (see `parser_safe`).
pub fn parser_safe_text(sql: &str) -> (r: bool)
    ensures
        r == parser_safe(sql@),
{
    proof {
        reveal_strlit("granted");
        reveal_strlit("grant");
        reveal_strlit("revoke");
        reveal_strlit("channel");
        reveal_strlit("flush");
    }
    let s = chars_of(sql);
    let granted = has_word_exec(&s, "granted");
    let grant = has_word_exec(&s, "grant");
    let revoke = has_word_exec(&s, "revoke");
    let channel = has_word_exec(&s, "channel");
    let flush = has_word_exec(&s, "flush");
    !(granted && (grant || revoke)) && !(channel && flush)
}

/// What `sqlparser`'s `Parser::parse_sql` gives for the text under the
/// PostgreSQL dialect: the statements, carried over by the converters of this
/// module, or the text of the parser's error.
pub uninterp spec fn postgres_parse(sql: Seq<char>) -> Result<Seq<SqlStatement>, Seq<char>>;

/// Parses SQL text with `sqlparser::parser::Parser::parse_sql` and the
/// PostgreSQL dialect. The contract claims only that the result is the one
/// named `postgres_parse` for the text: the same text parses the same way.
/// The parser panics on some GRANT, REVOKE and FLUSH statements; `requires`
/// leaves out every text that holds one of them (see `parser_safe`).
#[verifier::external_body]
pub(crate) fn parse_sql(sql: &str) -> (r: Result<Vec<SqlStatement>, String>)
    requires
        parser_safe(sql@),
    ensures
        match r {
            Ok(v) => postgres_parse(sql@) == Ok::<Seq<SqlStatement>, Seq<char>>(v@),
            Err(e) => postgres_parse(sql@) == Err::<Seq<SqlStatement>, Seq<char>>(e@),
        },
{
    match Parser::parse_sql(&PostgreSqlDialect {}, sql) {
        Ok(statements) => Ok(statements.iter().map(statement_of).collect()),
        Err(e) => Err(e.to_string()),
    }
}

#[verifier::external_body]
fn statement_of(s: &Statement) -> SqlStatement {
    match s {
        Statement::Query(q) => SqlStatement::Query(query_of(q)),
        _ => SqlStatement::Other,
    }
}

#[verifier::external_body]
fn query_of(q: &Query) -> SqlQuery {
    SqlQuery {
        body: match q.body.as_ref() {
            SetExpr::Select(s) => SqlSetExpr::Select(select_of(s)),
            _ => SqlSetExpr::Other,
        },
        order_by: q.order_by.as_ref().map(|o| o.exprs.iter().map(order_by_expr_of).collect()),
        limit: q.limit.as_ref().map(expr_of),
        offset: q.offset.as_ref().map(|o| expr_of(&o.value)),
    }
}

#[verifier::external_body]
fn select_of(s: &Select) -> SqlSelect {
    SqlSelect {
        distinct_on: s.distinct.as_ref().map(|d| matches!(d, Distinct::On(_))),
        projection: s.projection.iter().map(select_item_of).collect(),
        from: s.from.iter().map(table_with_joins_of).collect(),
        selection: s.selection.as_ref().map(expr_of),
        group_by: group_by_of(&s.group_by),
        having: s.having.as_ref().map(expr_of),
    }
}

#[verifier::external_body]
fn select_item_of(item: &SelectItem) -> SqlSelectItem {
    match item {
        SelectItem::UnnamedExpr(e) => SqlSelectItem::Unnamed(expr_of(e)),
        SelectItem::ExprWithAlias { expr, alias } => SqlSelectItem::Aliased {
            expr: expr_of(expr),
            alias: alias.value.clone(),
        },
        SelectItem::Wildcard(_) => SqlSelectItem::Wildcard,
        SelectItem::QualifiedWildcard(..) => SqlSelectItem::Other(format!("{item:?}")),
    }
}

#[verifier::external_body]
fn table_with_joins_of(t: &TableWithJoins) -> SqlTableWithJoins {
    SqlTableWithJoins {
        table_name: match &t.relation {
            TableFactor::Table { name, .. } => Some(name.to_string()),
            _ => None,
        },
        joins: t.joins.len(),
    }
}

#[verifier::external_body]
fn group_by_of(g: &GroupByExpr) -> SqlGroupBy {
    match g {
        GroupByExpr::All(_) => SqlGroupBy::All,
        GroupByExpr::Expressions(exprs, _) => SqlGroupBy::Expressions(
            exprs.iter().map(expr_of).collect(),
        ),
    }
}

#[verifier::external_body]
fn order_by_expr_of(o: &OrderByExpr) -> SqlOrderByExpr {
    SqlOrderByExpr { expr: expr_of(&o.expr), asc: o.asc }
}

#[verifier::external_body]
fn expr_of(e: &Expr) -> SqlExpr {
    SqlExpr { kind: expr_kind_of(e), debug: format!("{e:?}") }
}

#[verifier::external_body]
fn boxed_expr_of(e: &Expr) -> Box<SqlExpr> {
    Box::new(expr_of(e))
}

#[verifier::external_body]
fn expr_kind_of(e: &Expr) -> SqlExprKind {
    match e {
        Expr::Identifier(i) => SqlExprKind::Identifier(i.value.clone()),
        Expr::CompoundIdentifier(parts) => SqlExprKind::CompoundIdentifier(
            parts.iter().map(|i| i.value.clone()).collect(),
        ),
        Expr::Value(v) => SqlExprKind::Literal(value_of(v)),
        Expr::BinaryOp { left, op, right } => SqlExprKind::BinaryOp {
            left: boxed_expr_of(left),
            op: binary_op_of(op),
            right: boxed_expr_of(right),
        },
        Expr::Nested(inner) => SqlExprKind::Nested(boxed_expr_of(inner)),
        Expr::Function(f) => SqlExprKind::Function(function_of(f)),
        _ => predicate_kind_of(e),
    }
}

#[verifier::external_body]
fn predicate_kind_of(e: &Expr) -> SqlExprKind {
    match e {
        Expr::Between { expr, negated, low, high } => SqlExprKind::Between {
            expr: boxed_expr_of(expr),
            low: boxed_expr_of(low),
            high: boxed_expr_of(high),
            negated: *negated,
        },
        Expr::InList { expr, list, negated } => SqlExprKind::InList {
            expr: boxed_expr_of(expr),
            list: list.iter().map(expr_of).collect(),
            negated: *negated,
        },
        _ => operand_kind_of(e),
    }
}

#[verifier::external_body]
fn operand_kind_of(e: &Expr) -> SqlExprKind {
    match e {
        Expr::Like { negated, expr, pattern, .. } => SqlExprKind::Like {
            expr: boxed_expr_of(expr),
            pattern: boxed_expr_of(pattern),
            negated: *negated,
        },
        Expr::IsNull(inner) => SqlExprKind::IsNull(boxed_expr_of(inner)),
        Expr::IsNotNull(inner) => SqlExprKind::IsNotNull(boxed_expr_of(inner)),
        Expr::UnaryOp { op: UnaryOperator::Not, expr } => SqlExprKind::Not(boxed_expr_of(expr)),
        Expr::UnaryOp { op: UnaryOperator::Minus, expr } => SqlExprKind::Minus(boxed_expr_of(expr)),
        Expr::Array(a) => SqlExprKind::Array(a.elem.iter().map(expr_of).collect()),
        _ => SqlExprKind::Other,
    }
}

#[verifier::external_body]
fn value_of(v: &LiteralValue) -> SqlValue {
    match v {
        LiteralValue::Number(n, _) => SqlValue::Number(n.clone()),
        LiteralValue::SingleQuotedString(s) => SqlValue::SingleQuoted(s.clone()),
        LiteralValue::DoubleQuotedString(s) => SqlValue::DoubleQuoted(s.clone()),
        _ => SqlValue::Other(format!("{v:?}")),
    }
}

#[verifier::external_body]
fn binary_op_of(op: &BinaryOperator) -> SqlBinaryOp {
    SqlBinaryOp { kind: binary_op_kind_of(op), debug: format!("{op:?}") }
}

#[verifier::external_body]
fn binary_op_kind_of(op: &BinaryOperator) -> SqlBinaryOpKind {
    match op {
        BinaryOperator::Eq => SqlBinaryOpKind::Eq,
        BinaryOperator::NotEq => SqlBinaryOpKind::NotEq,
        BinaryOperator::Gt => SqlBinaryOpKind::Gt,
        BinaryOperator::GtEq => SqlBinaryOpKind::GtEq,
        BinaryOperator::Lt => SqlBinaryOpKind::Lt,
        BinaryOperator::LtEq => SqlBinaryOpKind::LtEq,
        BinaryOperator::And => SqlBinaryOpKind::And,
        BinaryOperator::Or => SqlBinaryOpKind::Or,
        BinaryOperator::Spaceship => SqlBinaryOpKind::Spaceship,
        BinaryOperator::Custom(s) => SqlBinaryOpKind::Custom(s.clone()),
        BinaryOperator::PGCustomBinaryOperator(parts) => SqlBinaryOpKind::PgCustom(parts.clone()),
        _ => SqlBinaryOpKind::Other,
    }
}

#[verifier::external_body]
fn function_of(f: &Function) -> SqlFunction {
    SqlFunction {
        name: f.name.to_string(),
        args: match &f.args {
            FunctionArguments::None => SqlFunctionArgs::Absent,
            FunctionArguments::Subquery(_) => SqlFunctionArgs::Subquery,
            FunctionArguments::List(l) => SqlFunctionArgs::List(
                l.args.iter().map(function_arg_of).collect(),
            ),
        },
    }
}

#[verifier::external_body]
fn function_arg_of(a: &FunctionArg) -> SqlFunctionArg {
    match a {
        FunctionArg::Unnamed(FunctionArgExpr::Wildcard) => SqlFunctionArg::Wildcard,
        FunctionArg::Unnamed(FunctionArgExpr::Expr(e)) => SqlFunctionArg::Expr(expr_of(e)),
        _ => SqlFunctionArg::Other,
    }
}

} // verus!
