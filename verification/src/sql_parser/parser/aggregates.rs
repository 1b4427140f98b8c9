//! Aggregate functions, GROUP BY and HAVING.

use vstd::prelude::*;
use crate::sql_parser::ast::{
    AggregateExpr, AggregateFunction, Condition, GroupBy, SpecAggregateExpr,
    SpecAggregateFunction, SpecCondition, opt_view, strings_view,
};
use crate::sql_parser::error::{ErrorCategory, SpecSqlError, SqlError, plain_error};
use crate::sql_parser::number::{Number, display_text, in_unit_interval, nat_string, nat_text, parse_float, parse_unsigned, parse_unsigned_exec};
use crate::sql_parser::parser::expressions::{
    comparison_condition, concat, extract_identifier, extract_value, identifier_of, is_comparison,
    syntax_err, unsupported_err, value_of,
};
use crate::sql_parser::parser::syntax::{
    SqlBinaryOpKind, SqlExpr, SqlExprKind, SqlFunction, SqlFunctionArg, SqlFunctionArgs, SqlGroupBy,
    SqlValue,
};
use crate::sql_parser::text::{chars_of, lowercase_text, push_str, to_lowercase, to_uppercase, uppercase_text};

verus! {

/// The text an argument of an aggregate function contributes: `*`, an
/// identifier, a number or a string; a compound identifier with no part
/// contributes nothing.
pub open spec fn argument_text(a: SqlFunctionArg) -> Result<Option<Seq<char>>, SpecSqlError> {
    match a {
        SqlFunctionArg::Wildcard => Ok(Some("*"@)),
        SqlFunctionArg::Expr(e) => match e.kind {
            SqlExprKind::Identifier(s) => Ok(Some(s@)),
            SqlExprKind::Literal(SqlValue::Number(n)) => Ok(Some(n@)),
            SqlExprKind::Literal(SqlValue::SingleQuoted(s)) => Ok(Some(s@)),
            SqlExprKind::Literal(SqlValue::DoubleQuoted(s)) => Ok(Some(s@)),
            SqlExprKind::CompoundIdentifier(parts) => Ok(
                if parts@.len() == 0 {
                    None
                } else {
                    Some(parts@.last()@)
                },
            ),
            _ => unsupported_err("Unsupported function argument expression: "@ + e.debug@),
        },
        SqlFunctionArg::Other => unsupported_err("Unsupported function argument type"@),
    }
}

/// The texts of the arguments, in order, or the first error.
pub open spec fn argument_texts(args: Seq<SqlFunctionArg>) -> Result<Seq<Seq<char>>, SpecSqlError>
    decreases args.len(),
{
    if args.len() == 0 {
        Ok(Seq::empty())
    } else {
        match argument_texts(args.drop_last()) {
            Err(err) => Err(err),
            Ok(ts) => match argument_text(args.last()) {
                Err(err) => Err(err),
                Ok(None) => Ok(ts),
                Ok(Some(t)) => Ok(ts.push(t)),
            },
        }
    }
}

/// The argument texts of a function call.
pub open spec fn function_arguments(f: SqlFunction) -> Result<Seq<Seq<char>>, SpecSqlError> {
    match f.args {
        SqlFunctionArgs::Absent => Ok(Seq::empty()),
        SqlFunctionArgs::Subquery => unsupported_err(
            "Subqueries in aggregate functions are not supported"@,
        ),
        SqlFunctionArgs::List(args) => argument_texts(args@),
    }
}

/// The aggregate functions that take at most a field.
pub open spec fn simple_aggregate(name: Seq<char>) -> Option<SpecAggregateFunction> {
    if name == "SUM"@ {
        Some(SpecAggregateFunction::Sum)
    } else if name == "AVG"@ {
        Some(SpecAggregateFunction::Avg)
    } else if name == "MIN"@ {
        Some(SpecAggregateFunction::Min)
    } else if name == "MAX"@ {
        Some(SpecAggregateFunction::Max)
    } else if name == "COUNT_DISTINCT"@ {
        Some(SpecAggregateFunction::CountDistinct)
    } else if name == "COUNT_DISTINCTISH"@ {
        Some(SpecAggregateFunction::CountDistinctish)
    } else if name == "STDDEV"@ {
        Some(SpecAggregateFunction::Stddev)
    } else if name == "TOLIST"@ {
        Some(SpecAggregateFunction::Tolist)
    } else if name == "HLL"@ {
        Some(SpecAggregateFunction::Hll)
    } else if name == "HLL_SUM"@ {
        Some(SpecAggregateFunction::HllSum)
    } else {
        None
    }
}

pub open spec fn first_arg(args: Seq<Seq<char>>) -> Option<Seq<char>> {
    if args.len() == 0 {
        None
    } else {
        Some(args[0])
    }
}

pub open spec fn aggregate(
    function: SpecAggregateFunction,
    field: Option<Seq<char>>,
    alias: Option<Seq<char>>,
) -> Result<Option<SpecAggregateExpr>, SpecSqlError> {
    Ok(Some(SpecAggregateExpr { function, field, alias }))
}

/// QUANTILE(field, percentile).
pub open spec fn quantile_of(args: Seq<Seq<char>>, alias: Option<Seq<char>>) -> Result<
    Option<SpecAggregateExpr>,
    SpecSqlError,
> {
    if args.len() != 2 {
        syntax_err("QUANTILE requires exactly 2 arguments: QUANTILE(field, percentile)"@)
    } else {
        match parse_float(args[1]) {
            None => syntax_err(
                "QUANTILE percentile must be a number between 0.0 and 1.0, got: '"@ + args[1]
                    + "'"@,
            ),
            Some(p) => if !in_unit_interval(p) {
                syntax_err("QUANTILE percentile must be between 0.0 and 1.0, got: "@ + display_text(p))
            } else {
                aggregate(SpecAggregateFunction::Quantile { percentile: p }, Some(args[0]), alias)
            },
        }
    }
}

/// RANDOM_SAMPLE(field, size).
pub open spec fn random_sample_of(args: Seq<Seq<char>>, alias: Option<Seq<char>>) -> Result<
    Option<SpecAggregateExpr>,
    SpecSqlError,
> {
    if args.len() != 2 {
        syntax_err("RANDOM_SAMPLE requires exactly 2 arguments: RANDOM_SAMPLE(field, size)"@)
    } else {
        match parse_unsigned(args[1], u32::MAX as nat) {
            None => syntax_err(
                "RANDOM_SAMPLE size must be a positive integer, got: '"@ + args[1] + "'"@,
            ),
            Some(size) => if size == 0 || size > 1000 {
                syntax_err("RANDOM_SAMPLE size must be between 1 and 1000, got: "@ + nat_text(size))
            } else {
                aggregate(
                    SpecAggregateFunction::RandomSample { size: size as u32 },
                    Some(args[0]),
                    alias,
                )
            },
        }
    }
}

/// FIRST_VALUE(field, sort_field [, 'ASC'|'DESC']); descending by default.
/// `direction` is the third argument in upper case.
pub open spec fn first_value_directed(args: Seq<Seq<char>>, direction: Seq<char>, alias: Option<Seq<char>>) -> Result<
    Option<SpecAggregateExpr>,
    SpecSqlError,
> {
    if args.len() < 2 || args.len() > 3 {
        syntax_err(
            "FIRST_VALUE requires 2-3 arguments: FIRST_VALUE(field, sort_field [, 'ASC'|'DESC'])"@,
        )
    } else if args.len() == 3 && direction != "ASC"@ && direction != "DESC"@ {
        syntax_err("FIRST_VALUE third argument must be 'ASC' or 'DESC'"@)
    } else {
        aggregate(
            SpecAggregateFunction::FirstValue {
                sort_field: args[1],
                ascending: args.len() == 3 && direction == "ASC"@,
            },
            Some(args[0]),
            alias,
        )
    }
}

/// The third argument in upper case, empty when there is none.
pub open spec fn third_upper(args: Seq<Seq<char>>) -> Seq<char> {
    if args.len() == 3 {
        uppercase_text(args[2])
    } else {
        Seq::empty()
    }
}

/// FIRST_VALUE with its direction read in upper case.
pub open spec fn first_value_of(args: Seq<Seq<char>>, alias: Option<Seq<char>>) -> Result<
    Option<SpecAggregateExpr>,
    SpecSqlError,
> {
    first_value_directed(args, third_upper(args), alias)
}

/// The aggregate that a function stands for, given its name in upper case,
/// its arguments, and its third argument in upper case; `None` when the name
/// is not an aggregate's.
pub open spec fn aggregate_named(
    name: Seq<char>,
    args: Seq<Seq<char>>,
    direction: Seq<char>,
    alias: Option<Seq<char>>,
) -> Result<Option<SpecAggregateExpr>, SpecSqlError> {
    if name == "COUNT"@ {
        aggregate(
            SpecAggregateFunction::Count,
            if args.len() == 0 || args[0] == "*"@ {
                None
            } else {
                Some(args[0])
            },
            alias,
        )
    } else if simple_aggregate(name) is Some {
        aggregate(simple_aggregate(name)->0, first_arg(args), alias)
    } else if name == "QUANTILE"@ {
        quantile_of(args, alias)
    } else if name == "RANDOM_SAMPLE"@ {
        random_sample_of(args, alias)
    } else if name == "FIRST_VALUE"@ {
        first_value_directed(args, direction, alias)
    } else {
        Ok(None)
    }
}

/// The aggregate a function call in the SELECT list stands for, `None` when
/// the function is not an aggregate. Its name is matched in upper case, after
/// its arguments are read.
pub open spec fn aggregate_of(f: SqlFunction, alias: Option<Seq<char>>) -> Result<
    Option<SpecAggregateExpr>,
    SpecSqlError,
> {
    match function_arguments(f) {
        Err(err) => Err(err),
        Ok(args) => aggregate_named(uppercase_text(f.name@), args, third_upper(args), alias),
    }
}

/// The column names of a list of expressions, or the first error.
pub open spec fn identifiers_of(es: Seq<SqlExpr>) -> Result<Seq<Seq<char>>, SpecSqlError>
    decreases es.len(),
{
    if es.len() == 0 {
        Ok(Seq::empty())
    } else {
        match identifiers_of(es.drop_last()) {
            Err(err) => Err(err),
            Ok(fs) => match identifier_of(es.last()) {
                Err(err) => Err(err),
                Ok(f) => Ok(fs.push(f)),
            },
        }
    }
}

/// The GROUP BY fields; `None` when there is no grouping.
pub open spec fn group_by_fields(g: SqlGroupBy) -> Result<Option<Seq<Seq<char>>>, SpecSqlError> {
    match g {
        SqlGroupBy::All => unsupported_err("GROUP BY ALL is not supported"@),
        SqlGroupBy::Expressions(es) => if es@.len() == 0 {
            Ok(None)
        } else {
            match identifiers_of(es@) {
                Err(err) => Err(err),
                Ok(fs) => Ok(Some(fs)),
            }
        },
    }
}

/// The field a HAVING comparison reads: a column, or the name that the
/// aggregate call stands for (`count`, `sum_price`).
pub open spec fn having_field_of(e: SqlExpr) -> Result<Seq<char>, SpecSqlError> {
    match e.kind {
        SqlExprKind::Identifier(s) => Ok(s@),
        SqlExprKind::Function(f) => having_function_field(lowercase_text(uppercase_text(f.name@)), f),
        _ => unsupported_err("Unsupported expression in HAVING: "@ + e.debug@),
    }
}

/// The field an aggregate call in HAVING stands for, given its name in
/// lower case: the name, followed by `_` and the field of a sole argument.
pub open spec fn having_function_field(lname: Seq<char>, f: SqlFunction) -> Result<Seq<char>, SpecSqlError> {
    match f.args {
        SqlFunctionArgs::List(args) => if args@.len() == 0 || args@[0] is Wildcard {
            Ok(lname)
        } else if args@.len() == 1 {
            match args@[0] {
                SqlFunctionArg::Expr(x) => match identifier_of(x) {
                    Err(err) => Err(err),
                    Ok(field) => Ok(lname + "_"@ + field),
                },
                _ => Ok(lname),
            }
        } else {
            Ok(lname)
        },
        _ => Ok(lname),
    }
}

/// A HAVING comparison: field first, then value, then the operator.
pub open spec fn having_comparison(e: SqlExpr) -> Result<SpecCondition, SpecSqlError> {
    match e.kind {
        SqlExprKind::BinaryOp { left, op, right } => match having_field_of(*left) {
            Err(err) => Err(err),
            Ok(field) => match value_of(*right) {
                Err(err) => Err(err),
                Ok(v) => if is_comparison(op.kind) {
                    Ok(comparison_condition(op.kind, field, v))
                } else {
                    unsupported_err("Operator "@ + op.debug@ + " not supported in HAVING clause"@)
                },
            },
        },
        _ => unsupported_err("Only simple comparisons are supported in HAVING clause"@),
    }
}

pub open spec fn both<T>(l: Result<T, SpecSqlError>, r: Result<T, SpecSqlError>) -> Result<
    (T, T),
    SpecSqlError,
> {
    match l {
        Err(err) => Err(err),
        Ok(a) => match r {
            Err(err) => Err(err),
            Ok(b) => Ok((a, b)),
        },
    }
}

/// The condition of a HAVING expression: comparisons combined with AND/OR.
pub open spec fn having_of(e: SqlExpr) -> Result<SpecCondition, SpecSqlError>
    decreases e,
{
    match e.kind {
        SqlExprKind::BinaryOp { left, op, right } => if op.kind is And {
            match both(having_of(*left), having_of(*right)) {
                Err(err) => Err(err),
                Ok(p) => Ok(SpecCondition::And(Box::new(p.0), Box::new(p.1))),
            }
        } else if op.kind is Or {
            match both(having_of(*left), having_of(*right)) {
                Err(err) => Err(err),
                Ok(p) => Ok(SpecCondition::Or(Box::new(p.0), Box::new(p.1))),
            }
        } else {
            having_comparison(e)
        },
        SqlExprKind::Nested(inner) => having_of(*inner),
        _ => having_comparison(e),
    }
}

fn text_of_argument(a: &SqlFunctionArg) -> (r: Result<Option<String>, SqlError>)
    ensures
        match r {
            Ok(t) => argument_text(*a) == Ok::<Option<Seq<char>>, SpecSqlError>(opt_view(t)),
            Err(e) => argument_text(*a) == Err::<Option<Seq<char>>, SpecSqlError>(e@),
        },
{
    match a {
        SqlFunctionArg::Wildcard => Ok(Some(String::from_str("*"))),
        SqlFunctionArg::Expr(e) => match &e.kind {
            SqlExprKind::Identifier(s) => Ok(Some(s.clone())),
            SqlExprKind::Literal(SqlValue::Number(n)) => Ok(Some(n.clone())),
            SqlExprKind::Literal(SqlValue::SingleQuoted(s)) => Ok(Some(s.clone())),
            SqlExprKind::Literal(SqlValue::DoubleQuoted(s)) => Ok(Some(s.clone())),
            SqlExprKind::CompoundIdentifier(parts) => {
                if parts.len() == 0 {
                    Ok(None)
                } else {
                    Ok(Some(parts[parts.len() - 1].clone()))
                }
            },
            _ => Err(
                SqlError::unsupported(
                    concat("Unsupported function argument expression: ", e.debug.as_str()),
                ),
            ),
        },
        SqlFunctionArg::Other => Err(SqlError::unsupported("Unsupported function argument type")),
    }
}

proof fn lemma_arguments_error(args: Seq<SqlFunctionArg>, i: int)
    requires
        0 <= i < args.len(),
        argument_texts(args.take(i)) is Ok,
        argument_text(args[i]) is Err,
    ensures
        argument_texts(args) == Err::<Seq<Seq<char>>, SpecSqlError>(argument_text(args[i])->Err_0),
    decreases args.len() - i,
{
    if i == args.len() - 1 {
        assert(args.drop_last() == args.take(i));
    } else {
        assert(args.drop_last().take(i) == args.take(i));
        lemma_arguments_error(args.drop_last(), i);
        assert(args.drop_last()[i] == args[i]);
    }
}

/// Extracts function arguments as strings.
pub fn extract_function_args(func: &SqlFunction) -> (r: Result<Vec<String>, SqlError>)
    ensures
        match r {
            Ok(v) => function_arguments(*func) == Ok::<Seq<Seq<char>>, SpecSqlError>(
                strings_view(v@),
            ),
            Err(e) => function_arguments(*func) == Err::<Seq<Seq<char>>, SpecSqlError>(e@),
        },
{
    match &func.args {
        SqlFunctionArgs::Absent => {
            let v: Vec<String> = Vec::new();
            assert(strings_view(v@) =~= Seq::<Seq<char>>::empty());
            Ok(v)
        },
        SqlFunctionArgs::Subquery => Err(
            SqlError::unsupported("Subqueries in aggregate functions are not supported"),
        ),
        SqlFunctionArgs::List(list) => {
            let mut args: Vec<String> = Vec::new();
            assert(list@.take(0) =~= Seq::<SqlFunctionArg>::empty());
            assert(strings_view(args@) =~= Seq::<Seq<char>>::empty());
            let mut i: usize = 0;
            while i < list.len()
                invariant
                    i <= list@.len(),
                    function_arguments(*func) == argument_texts(list@),
                    argument_texts(list@.take(i as int)) == Ok::<Seq<Seq<char>>, SpecSqlError>(
                        strings_view(args@),
                    ),
                decreases list@.len() - i,
            {
                assert(list@.take(i + 1).drop_last() == list@.take(i as int));
                assert(list@.take(i + 1).last() == list@[i as int]);
                let ghost before = args@;
                match text_of_argument(&list[i]) {
                    Ok(Some(t)) => {
                        args.push(t);
                        assert(strings_view(args@) =~= strings_view(before).push(args@.last()@));
                    },
                    Ok(None) => {},
                    Err(e) => {
                        proof {
                            lemma_arguments_error(list@, i as int);
                        }
                        return Err(e);
                    },
                }
                i = i + 1;
            }
            assert(list@.take(list@.len() as int) == list@);
            Ok(args)
        },
    }
}

fn simple_aggregate_function(name: &String) -> (r: Option<AggregateFunction>)
    ensures
        match r {
            Some(f) => simple_aggregate(name@) == Some(f@),
            None => simple_aggregate(name@) is None,
        },
{
    let n = name.as_str();
    proof {
        reveal_strlit("SUM");
        reveal_strlit("AVG");
        reveal_strlit("MIN");
        reveal_strlit("MAX");
        reveal_strlit("COUNT_DISTINCT");
        reveal_strlit("COUNT_DISTINCTISH");
        reveal_strlit("STDDEV");
        reveal_strlit("TOLIST");
        reveal_strlit("HLL");
        reveal_strlit("HLL_SUM");
    }
    if str_eq(n, "SUM") {
        Some(AggregateFunction::Sum)
    } else if str_eq(n, "AVG") {
        Some(AggregateFunction::Avg)
    } else if str_eq(n, "MIN") {
        Some(AggregateFunction::Min)
    } else if str_eq(n, "MAX") {
        Some(AggregateFunction::Max)
    } else if str_eq(n, "COUNT_DISTINCT") {
        Some(AggregateFunction::CountDistinct)
    } else if str_eq(n, "COUNT_DISTINCTISH") {
        Some(AggregateFunction::CountDistinctish)
    } else if str_eq(n, "STDDEV") {
        Some(AggregateFunction::Stddev)
    } else if str_eq(n, "TOLIST") {
        Some(AggregateFunction::Tolist)
    } else if str_eq(n, "HLL") {
        Some(AggregateFunction::Hll)
    } else if str_eq(n, "HLL_SUM") {
        Some(AggregateFunction::HllSum)
    } else {
        None
    }
}

/// Whether two strings hold the same characters.
pub fn str_eq(a: &str, b: &str) -> (r: bool)
    ensures
        r == (a@ == b@),
{
    let x = chars_of(a);
    let y = chars_of(b);
    if x.len() != y.len() {
        return false;
    }
    let mut i: usize = 0;
    while i < x.len()
        invariant
            x@ == a@,
            y@ == b@,
            x@.len() == y@.len(),
            i <= x@.len(),
            forall|k: int| 0 <= k < i ==> x@[k] == y@[k],
        decreases x@.len() - i,
    {
        if x[i] != y[i] {
            return false;
        }
        i = i + 1;
    }
    assert(x@ =~= y@);
    true
}

fn quantile_aggregate(args: &Vec<String>, alias: Option<String>) -> (r: Result<Option<AggregateExpr>, SqlError>)
    ensures
        match r {
            Ok(a) => quantile_of(strings_view(args@), opt_view(alias)) == Ok::<Option<SpecAggregateExpr>, SpecSqlError>(match a {
                Some(x) => Some(x@),
                None => None,
            }),
            Err(e) => quantile_of(strings_view(args@), opt_view(alias)) == Err::<Option<SpecAggregateExpr>, SpecSqlError>(e@),
        },
{
    if args.len() != 2 {
        return Err(SqlError::syntax("QUANTILE requires exactly 2 arguments: QUANTILE(field, percentile)"));
    }
    match Number::parse(args[1].as_str()) {
        None => {
            let mut m = String::from_str("QUANTILE percentile must be a number between 0.0 and 1.0, got: '");
            push_str(&mut m, args[1].as_str());
            push_str(&mut m, "'");
            Err(SqlError::syntax(m))
        },
        Some(p) => {
            if !p.in_unit_interval() {
                return Err(SqlError::syntax(concat("QUANTILE percentile must be between 0.0 and 1.0, got: ", p.to_display_string().as_str())));
            }
            Ok(Some(AggregateExpr {
                function: AggregateFunction::Quantile { percentile: p },
                field: Some(args[0].clone()),
                alias,
            }))
        },
    }
}

fn random_sample_aggregate(args: &Vec<String>, alias: Option<String>) -> (r: Result<Option<AggregateExpr>, SqlError>)
    ensures
        match r {
            Ok(a) => random_sample_of(strings_view(args@), opt_view(alias)) == Ok::<Option<SpecAggregateExpr>, SpecSqlError>(match a {
                Some(x) => Some(x@),
                None => None,
            }),
            Err(e) => random_sample_of(strings_view(args@), opt_view(alias)) == Err::<Option<SpecAggregateExpr>, SpecSqlError>(e@),
        },
{
    if args.len() != 2 {
        return Err(SqlError::syntax("RANDOM_SAMPLE requires exactly 2 arguments: RANDOM_SAMPLE(field, size)"));
    }
    let cs = chars_of(args[1].as_str());
    match parse_unsigned_exec(cs.as_slice(), 0xffff_ffff) {
        None => {
            let mut m = String::from_str("RANDOM_SAMPLE size must be a positive integer, got: '");
            push_str(&mut m, args[1].as_str());
            push_str(&mut m, "'");
            Err(SqlError::syntax(m))
        },
        Some(size) => {
            if size == 0 || size > 1000 {
                return Err(SqlError::syntax(concat("RANDOM_SAMPLE size must be between 1 and 1000, got: ", nat_string(size as u128).as_str())));
            }
            Ok(Some(AggregateExpr {
                function: AggregateFunction::RandomSample { size: size as u32 },
                field: Some(args[0].clone()),
                alias,
            }))
        },
    }
}

/// FIRST_VALUE(field, sort_field [, 'ASC'|'DESC']), `direction` being the
/// third argument in upper case (ignored when there are two arguments).
pub fn first_value_with_direction(args: &Vec<String>, direction: &str, alias: Option<String>) -> (r: Result<Option<AggregateExpr>, SqlError>)
    ensures
        match r {
            Ok(a) => first_value_directed(strings_view(args@), direction@, opt_view(alias)) == Ok::<Option<SpecAggregateExpr>, SpecSqlError>(match a {
                Some(x) => Some(x@),
                None => None,
            }),
            Err(e) => first_value_directed(strings_view(args@), direction@, opt_view(alias)) == Err::<Option<SpecAggregateExpr>, SpecSqlError>(e@),
        },
{
    if args.len() < 2 || args.len() > 3 {
        return Err(SqlError::syntax("FIRST_VALUE requires 2-3 arguments: FIRST_VALUE(field, sort_field [, 'ASC'|'DESC'])"));
    }
    let mut ascending = false;
    if args.len() == 3 {
        proof {
            reveal_strlit("ASC");
            reveal_strlit("DESC");
        }
        if str_eq(direction, "ASC") {
            ascending = true;
        } else if str_eq(direction, "DESC") {
            ascending = false;
        } else {
            return Err(SqlError::syntax("FIRST_VALUE third argument must be 'ASC' or 'DESC'"));
        }
    }
    Ok(Some(AggregateExpr {
        function: AggregateFunction::FirstValue { sort_field: args[1].clone(), ascending },
        field: Some(args[0].clone()),
        alias,
    }))
}

/// The aggregate that a function stands for, given its name in upper case,
/// its arguments, and its third argument in upper case; `None` when the name
/// is not an aggregate's.
pub fn aggregate_from_parts(name: &str, args: &Vec<String>, direction: &str, alias: Option<String>) -> (r: Result<Option<AggregateExpr>, SqlError>)
    ensures
        match r {
            Ok(a) => aggregate_named(name@, strings_view(args@), direction@, opt_view(alias)) == Ok::<Option<SpecAggregateExpr>, SpecSqlError>(match a {
                Some(x) => Some(x@),
                None => None,
            }),
            Err(e) => aggregate_named(name@, strings_view(args@), direction@, opt_view(alias)) == Err::<Option<SpecAggregateExpr>, SpecSqlError>(e@),
        },
{
    let ghost a = strings_view(args@);
    proof {
        reveal_strlit("COUNT");
        reveal_strlit("QUANTILE");
        reveal_strlit("RANDOM_SAMPLE");
        reveal_strlit("FIRST_VALUE");
        reveal_strlit("*");
    }
    if str_eq(name, "COUNT") {
        let field = if args.len() == 0 || str_eq(args[0].as_str(), "*") {
            None
        } else {
            Some(args[0].clone())
        };
        return Ok(Some(AggregateExpr { function: AggregateFunction::Count, field, alias }));
    }
    let owned = String::from_str(name);
    match simple_aggregate_function(&owned) {
        Some(function) => {
            let field = if args.len() == 0 {
                None
            } else {
                Some(args[0].clone())
            };
            return Ok(Some(AggregateExpr { function, field, alias }));
        },
        None => {},
    }
    if str_eq(name, "QUANTILE") {
        quantile_aggregate(args, alias)
    } else if str_eq(name, "RANDOM_SAMPLE") {
        random_sample_aggregate(args, alias)
    } else if str_eq(name, "FIRST_VALUE") {
        first_value_with_direction(args, direction, alias)
    } else {
        Ok(None)
    }
}

/// Parses an aggregate function of the SELECT list; `None` when the function
/// is not an aggregate.
pub fn parse_aggregate_function(func: &SqlFunction, alias: Option<String>) -> (r: Result<Option<AggregateExpr>, SqlError>)
    ensures
        match r {
            Ok(a) => aggregate_of(*func, opt_view(alias)) == Ok::<Option<SpecAggregateExpr>, SpecSqlError>(match a {
                Some(x) => Some(x@),
                None => None,
            }),
            Err(e) => aggregate_of(*func, opt_view(alias)) == Err::<Option<SpecAggregateExpr>, SpecSqlError>(e@),
        },
{
    let name = to_uppercase(func.name.as_str());
    let args = extract_function_args(func)?;
    let direction = if args.len() == 3 {
        to_uppercase(args[2].as_str())
    } else {
        String::new()
    };
    aggregate_from_parts(name.as_str(), &args, direction.as_str(), alias)
}

proof fn lemma_identifiers_error(es: Seq<SqlExpr>, i: int)
    requires
        0 <= i < es.len(),
        identifiers_of(es.take(i)) is Ok,
        identifier_of(es[i]) is Err,
    ensures
        identifiers_of(es) == Err::<Seq<Seq<char>>, SpecSqlError>(identifier_of(es[i])->Err_0),
    decreases es.len() - i,
{
    if i == es.len() - 1 {
        assert(es.drop_last() == es.take(i));
    } else {
        assert(es.drop_last().take(i) == es.take(i));
        lemma_identifiers_error(es.drop_last(), i);
        assert(es.drop_last()[i] == es[i]);
    }
}

/// Parses the GROUP BY clause.
pub fn parse_group_by(group_by: &SqlGroupBy) -> (r: Result<Option<GroupBy>, SqlError>)
    ensures
        match r {
            Ok(g) => group_by_fields(*group_by) == Ok::<Option<Seq<Seq<char>>>, SpecSqlError>(match g {
                Some(x) => Some(x@),
                None => None,
            }),
            Err(e) => group_by_fields(*group_by) == Err::<Option<Seq<Seq<char>>>, SpecSqlError>(e@),
        },
{
    match group_by {
        SqlGroupBy::All => Err(SqlError::unsupported("GROUP BY ALL is not supported")),
        SqlGroupBy::Expressions(exprs) => {
            if exprs.len() == 0 {
                return Ok(None);
            }
            let mut fields: Vec<String> = Vec::new();
            assert(exprs@.take(0) =~= Seq::<SqlExpr>::empty());
            assert(strings_view(fields@) =~= Seq::<Seq<char>>::empty());
            let mut i: usize = 0;
            while i < exprs.len()
                invariant
                    i <= exprs@.len(),
                    *group_by == SqlGroupBy::Expressions(*exprs),
                    exprs@.len() > 0,
                    identifiers_of(exprs@.take(i as int)) == Ok::<Seq<Seq<char>>, SpecSqlError>(
                        strings_view(fields@),
                    ),
                decreases exprs@.len() - i,
            {
                assert(exprs@.take(i + 1).drop_last() == exprs@.take(i as int));
                assert(exprs@.take(i + 1).last() == exprs@[i as int]);
                let ghost before = fields@;
                match extract_identifier(&exprs[i]) {
                    Ok(f) => {
                        fields.push(f);
                        assert(strings_view(fields@) =~= strings_view(before).push(fields@.last()@));
                    },
                    Err(e) => {
                        proof {
                            lemma_identifiers_error(exprs@, i as int);
                        }
                        return Err(e);
                    },
                }
                i = i + 1;
            }
            assert(exprs@.take(exprs@.len() as int) == exprs@);
            Ok(Some(GroupBy { fields }))
        },
    }
}

/// The field an aggregate call in HAVING stands for, given its name in lower
/// case: the name, followed by `_` and the field of a sole argument.
pub fn having_field_from_name(lname: String, f: &SqlFunction) -> (r: Result<String, SqlError>)
    ensures
        match r {
            Ok(s) => having_function_field(lname@, *f) == Ok::<Seq<char>, SpecSqlError>(s@),
            Err(e) => having_function_field(lname@, *f) == Err::<Seq<char>, SpecSqlError>(e@),
        },
{
    match &f.args {
        SqlFunctionArgs::List(args) => {
            let wildcard_first = args.len() > 0 && match &args[0] {
                SqlFunctionArg::Wildcard => true,
                _ => false,
            };
            if args.len() == 0 || wildcard_first {
                Ok(lname)
            } else if args.len() == 1 {
                match &args[0] {
                    SqlFunctionArg::Expr(x) => {
                        let field = extract_identifier(x)?;
                        let mut s = lname;
                        push_str(&mut s, "_");
                        push_str(&mut s, field.as_str());
                        Ok(s)
                    },
                    _ => Ok(lname),
                }
            } else {
                Ok(lname)
            }
        },
        _ => Ok(lname),
    }
}

/// The field name a HAVING operand refers to: an identifier as written, or the
/// aggregate's lower-case name, followed by `_` and its sole field when it has one.
pub fn extract_having_field(expr: &SqlExpr) -> (r: Result<String, SqlError>)
    ensures
        match r {
            Ok(s) => having_field_of(*expr) == Ok::<Seq<char>, SpecSqlError>(s@),
            Err(e) => having_field_of(*expr) == Err::<Seq<char>, SpecSqlError>(e@),
        },
{
    match &expr.kind {
        SqlExprKind::Identifier(s) => Ok(s.clone()),
        SqlExprKind::Function(f) => {
            let upper = to_uppercase(f.name.as_str());
            let lname = to_lowercase(upper.as_str());
            having_field_from_name(lname, f)
        },
        _ => Err(SqlError::unsupported(concat("Unsupported expression in HAVING: ", expr.debug.as_str()))),
    }
}

fn having_comparison_exec(expr: &SqlExpr) -> (r: Result<Condition, SqlError>)
    ensures
        match r {
            Ok(c) => having_comparison(*expr) == Ok::<SpecCondition, SpecSqlError>(c@),
            Err(e) => having_comparison(*expr) == Err::<SpecCondition, SpecSqlError>(e@),
        },
{
    match &expr.kind {
        SqlExprKind::BinaryOp { left, op, right } => {
            let field = extract_having_field(left)?;
            let value = extract_value(right)?;
            match &op.kind {
                SqlBinaryOpKind::Gt => Ok(Condition::GreaterThan { field, value }),
                SqlBinaryOpKind::GtEq => Ok(Condition::GreaterThanOrEqual { field, value }),
                SqlBinaryOpKind::Lt => Ok(Condition::LessThan { field, value }),
                SqlBinaryOpKind::LtEq => Ok(Condition::LessThanOrEqual { field, value }),
                SqlBinaryOpKind::Eq => Ok(Condition::Equals { field, value }),
                SqlBinaryOpKind::NotEq => Ok(Condition::NotEquals { field, value }),
                _ => {
                    let mut m = String::from_str("Operator ");
                    push_str(&mut m, op.debug.as_str());
                    push_str(&mut m, " not supported in HAVING clause");
                    Err(SqlError::unsupported(m))
                },
            }
        },
        _ => Err(SqlError::unsupported("Only simple comparisons are supported in HAVING clause")),
    }
}

/// Parses a HAVING expression: comparisons combined with AND/OR.
pub fn parse_having_expression(expr: &SqlExpr) -> (r: Result<Condition, SqlError>)
    ensures
        match r {
            Ok(c) => having_of(*expr) == Ok::<SpecCondition, SpecSqlError>(c@),
            Err(e) => having_of(*expr) == Err::<SpecCondition, SpecSqlError>(e@),
        },
    decreases expr,
{
    match &expr.kind {
        SqlExprKind::BinaryOp { left, op, right } => {
            match &op.kind {
                SqlBinaryOpKind::And => {
                    let l = parse_having_expression(left)?;
                    let r = parse_having_expression(right)?;
                    return Ok(Condition::And(Box::new(l), Box::new(r)));
                },
                SqlBinaryOpKind::Or => {
                    let l = parse_having_expression(left)?;
                    let r = parse_having_expression(right)?;
                    return Ok(Condition::Or(Box::new(l), Box::new(r)));
                },
                _ => {},
            }
            having_comparison_exec(expr)
        },
        SqlExprKind::Nested(inner) => parse_having_expression(inner),
        _ => having_comparison_exec(expr),
    }
}

} // verus!
