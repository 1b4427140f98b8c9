//! Numbers as the translator reads and prints them.
//!
//! A number is held as an exact decimal: a sign, its significant digits and a
//! power of ten. Text is read with the grammar of `f64::from_str` and printed as
//! `f64`'s `Display` prints it (no exponent notation, no trailing zeros).

use vstd::prelude::*;
use crate::sql_parser::text::{slice_range, char_is_digit, char_lower, chars_of, eq_ignore_case, is_digit, lower, lower_seq, push_char, push_str};

verus! {

/// A number of at least `10^MAX_MAGNITUDE` is beyond the largest double
/// (about `1.8 * 10^308`) and reads as infinite.
pub const MAX_MAGNITUDE: i128 = 309;

/// A non-zero number below `10^MIN_MAGNITUDE` is below half the smallest
/// double (about `4.9 * 10^-324`) and reads as zero.
pub const MIN_MAGNITUDE: i128 = -323;

/// The mathematical model of a number.
pub enum SpecNumber {
    /// `(-1)^negative * digits * 10^exponent`; `digits` has no leading or trailing zero.
    Finite { negative: bool, digits: Seq<u8>, exponent: int },
    Infinite { negative: bool },
    NotANumber,
}

/// The representation of a number.
#[derive(Debug, Clone)]
pub enum NumberRepr {
    Finite { negative: bool, digits: Vec<u8>, exponent: i128 },
    Infinite { negative: bool },
    NotANumber,
}

impl View for NumberRepr {
    type V = SpecNumber;

    open spec fn view(&self) -> SpecNumber {
        match self {
            NumberRepr::Finite { negative, digits, exponent } => SpecNumber::Finite {
                negative: *negative,
                digits: digits@,
                exponent: *exponent as int,
            },
            NumberRepr::Infinite { negative } => SpecNumber::Infinite { negative: *negative },
            NumberRepr::NotANumber => SpecNumber::NotANumber,
        }
    }
}

/// A number read from SQL or OPTION text; always well formed.
#[derive(Debug)]
pub struct Number {
    repr: NumberRepr,
}

impl View for Number {
    type V = SpecNumber;

    closed spec fn view(&self) -> SpecNumber {
        self.repr@
    }
}

impl Number {
    #[verifier::type_invariant]
    spec fn inv(self) -> bool {
        number_wf(self.repr@)
    }

    fn from_repr(repr: NumberRepr) -> (n: Number)
        requires
            number_wf(repr@),
        ensures
            n@ == repr@,
    {
        Number { repr }
    }

    /// Reads a number with the grammar of `f64::from_str`.
    pub fn parse(text: &str) -> (r: Option<Number>)
        ensures
            match r {
                Some(n) => parse_float(text@) == Some(n@),
                None => parse_float(text@) is None,
            },
    {
        let cs = chars_of(text);
        parse_number(cs.as_slice())
    }

    /// The number one half (`0.5`).
    pub fn half() -> (r: Number)
        ensures
            r@ == half(),
    {
        let mut digits: Vec<u8> = Vec::new();
        digits.push(5);
        let repr = NumberRepr::Finite { negative: false, digits, exponent: -1 };
        assert(repr@ == half());
        Number::from_repr(repr)
    }

    /// A copy of the number.
    pub fn duplicate(&self) -> (r: Number)
        ensures
            r@ == self@,
    {
        proof {
            use_type_invariant(self);
        }
        Number::from_repr(duplicate_repr(&self.repr))
    }

    /// How the number is printed in RQL.
    pub fn to_rql_string(&self) -> (s: String)
        ensures
            s@ == rql_text(self@),
    {
        proof {
            use_type_invariant(self);
        }
        rql_string(&self.repr)
    }

    /// How `f64`'s `Display` prints the number.
    pub fn to_display_string(&self) -> (s: String)
        ensures
            s@ == display_text(self@),
    {
        proof {
            use_type_invariant(self);
        }
        display_string(&self.repr)
    }

    /// `-self`.
    pub fn negate(self) -> (r: Number)
        ensures
            r@ == negated(self@),
    {
        proof {
            use_type_invariant(&self);
        }
        Number::from_repr(negate_repr(self.repr))
    }

    /// `(0.0..=1.0).contains(&self)`.
    pub fn in_unit_interval(&self) -> (r: bool)
        ensures
            r == in_unit_interval(self@),
    {
        proof {
            use_type_invariant(self);
        }
        is_in_unit_interval(&self.repr)
    }
}

impl Clone for Number {
    fn clone(&self) -> (r: Number)
        ensures
            r@ == self@,
    {
        self.duplicate()
    }
}

fn duplicate_repr(r: &NumberRepr) -> (c: NumberRepr)
    ensures
        c@ == r@,
{
    match r {
        NumberRepr::Finite { negative, digits, exponent } => NumberRepr::Finite {
            negative: *negative,
            digits: digits.clone(),
            exponent: *exponent,
        },
        NumberRepr::Infinite { negative } => NumberRepr::Infinite { negative: *negative },
        NumberRepr::NotANumber => NumberRepr::NotANumber,
    }
}

/// Reads a number with the grammar of `f64::from_str`.
pub fn parse_number(t: &[char]) -> (r: Option<Number>)
    ensures
        match r {
            Some(n) => parse_float(t@) == Some(n@),
            None => parse_float(t@) is None,
        },
{
    match parse_float_exec(t) {
        Some(repr) => Some(Number::from_repr(repr)),
        None => None,
    }
}

/// Digit sequence without leading or trailing zeros, every element below ten.
pub open spec fn normalized_digits(d: Seq<u8>) -> bool {
    &&& forall|i: int| 0 <= i < d.len() ==> #[trigger] d[i] < 10
    &&& d.len() > 0 ==> d[0] != 0 && d[d.len() - 1] != 0
}

/// Well-formed numbers: normalized digits, magnitude within the range of a double.
pub open spec fn number_wf(n: SpecNumber) -> bool {
    match n {
        SpecNumber::Finite { negative, digits, exponent } => {
            &&& normalized_digits(digits)
            &&& digits.len() == 0 ==> exponent == 0
            &&& digits.len() > 0 ==> MIN_MAGNITUDE <= digits.len() + exponent <= MAX_MAGNITUDE
        },
        _ => true,
    }
}

pub open spec fn digit_value(c: char) -> u8 {
    ((c as u32) - ('0' as u32)) as u8
}

pub open spec fn digit_values(s: Seq<char>) -> Seq<u8> {
    s.map_values(|c: char| digit_value(c))
}

pub open spec fn all_digits(s: Seq<char>) -> bool {
    forall|i: int| 0 <= i < s.len() ==> is_digit(#[trigger] s[i])
}

/// Big-endian value of a sequence of decimal digits.
pub open spec fn digits_nat(d: Seq<u8>) -> nat
    decreases d.len(),
{
    if d.len() == 0 {
        0
    } else {
        digits_nat(d.drop_last()) * 10 + d.last() as nat
    }
}

pub open spec fn pow10(n: nat) -> nat
    decreases n,
{
    if n == 0 {
        1
    } else {
        10 * pow10((n - 1) as nat)
    }
}

/// Number of leading zeros of `d[i..]`, counted from `i`.
pub open spec fn leading_zeros_from(d: Seq<u8>, i: int) -> int
    decreases d.len() - i,
{
    if i < 0 || i >= d.len() || d[i] != 0 {
        i
    } else {
        leading_zeros_from(d, i + 1)
    }
}

/// End of `d[..j]` once its trailing zeros are removed.
pub open spec fn trailing_zeros_from(d: Seq<u8>, j: int) -> int
    decreases j,
{
    if j <= 0 || j > d.len() || d[j - 1] != 0 {
        j
    } else {
        trailing_zeros_from(d, j - 1)
    }
}

/// The exact number `(-1)^negative * raw * 10^exponent`, normalized, with
/// magnitudes out of range sent to infinity or zero.
pub open spec fn make_number(negative: bool, raw: Seq<u8>, exponent: int) -> SpecNumber {
    let start = leading_zeros_from(raw, 0);
    if start == raw.len() {
        SpecNumber::Finite { negative, digits: Seq::empty(), exponent: 0 }
    } else {
        let end = trailing_zeros_from(raw, raw.len() as int);
        let digits = raw.subrange(start, end);
        let exp = exponent + (raw.len() - end);
        let mag = digits.len() + exp;
        if mag > MAX_MAGNITUDE {
            SpecNumber::Infinite { negative }
        } else if mag < MIN_MAGNITUDE {
            SpecNumber::Finite { negative, digits: Seq::empty(), exponent: 0 }
        } else {
            SpecNumber::Finite { negative, digits, exponent: exp }
        }
    }
}

/// Index of the first `e` or `E` in `s[i..]`, or `s.len()`.
pub open spec fn exp_mark_from(s: Seq<char>, i: int) -> int
    decreases s.len() - i,
{
    if i < 0 || i >= s.len() || s[i] == 'e' || s[i] == 'E' {
        i
    } else {
        exp_mark_from(s, i + 1)
    }
}

/// Index of the first `.` in `s[i..]`, or `s.len()`.
pub open spec fn dot_from(s: Seq<char>, i: int) -> int
    decreases s.len() - i,
{
    if i < 0 || i >= s.len() || s[i] == '.' {
        i
    } else {
        dot_from(s, i + 1)
    }
}

/// Value of the exponent text `[+-]digits`, if it is one.
pub open spec fn exponent_value(s: Seq<char>) -> Option<int> {
    let neg = s.len() > 0 && s[0] == '-';
    let skip: int = if s.len() > 0 && (s[0] == '+' || s[0] == '-') { 1 } else { 0 };
    let ds = s.subrange(skip, s.len() as int);
    if ds.len() > 0 && all_digits(ds) {
        let v = digits_nat(digit_values(ds)) as int;
        Some(if neg { -v } else { v })
    } else {
        None
    }
}

/// A decimal `int[.frac][e[+-]exp]` with at least one mantissa digit.
pub open spec fn decimal_value(negative: bool, body: Seq<char>) -> Option<SpecNumber> {
    let e = exp_mark_from(body, 0);
    let mantissa = body.subrange(0, e);
    let d = dot_from(mantissa, 0);
    let int_part = mantissa.subrange(0, d);
    let frac_part = if d < mantissa.len() {
        mantissa.subrange(d + 1, mantissa.len() as int)
    } else {
        Seq::empty()
    };
    let exp = if e < body.len() {
        exponent_value(body.subrange(e + 1, body.len() as int))
    } else {
        Some(0)
    };
    if all_digits(int_part) && all_digits(frac_part) && int_part.len() + frac_part.len() > 0
        && exp is Some {
        Some(
            make_number(
                negative,
                digit_values(int_part + frac_part),
                exp->0 - frac_part.len(),
            ),
        )
    } else {
        None
    }
}

/// `f64::from_str`: an optional sign, then `inf`, `infinity`, `nan` (any case)
/// or a decimal.
pub open spec fn parse_float(t: Seq<char>) -> Option<SpecNumber> {
    let negative = t.len() > 0 && t[0] == '-';
    let skip: int = if t.len() > 0 && (t[0] == '+' || t[0] == '-') { 1 } else { 0 };
    let body = t.subrange(skip, t.len() as int);
    if eq_ignore_case(body, "inf"@) || eq_ignore_case(body, "infinity"@) {
        Some(SpecNumber::Infinite { negative })
    } else if eq_ignore_case(body, "nan"@) {
        Some(SpecNumber::NotANumber)
    } else {
        decimal_value(negative, body)
    }
}

/// `u64::from_str` / `u32::from_str`: an optional `+`, then digits, at most `max`.
pub open spec fn parse_unsigned(t: Seq<char>, max: nat) -> Option<nat> {
    let skip: int = if t.len() > 0 && t[0] == '+' { 1 } else { 0 };
    let ds = t.subrange(skip, t.len() as int);
    if ds.len() > 0 && all_digits(ds) && digits_nat(digit_values(ds)) <= max {
        Some(digits_nat(digit_values(ds)))
    } else {
        None
    }
}

pub open spec fn digit_char(d: u8) -> char {
    ((d as u32) + 48) as char
}

pub open spec fn digit_chars(d: Seq<u8>) -> Seq<char> {
    d.map_values(|x: u8| digit_char(x))
}

pub open spec fn zeros(n: nat) -> Seq<char> {
    Seq::new(n, |i: int| '0')
}

/// Decimal text of a natural number.
pub open spec fn nat_text(n: nat) -> Seq<char>
    decreases n,
{
    if n < 10 {
        seq![digit_char(n as u8)]
    } else {
        nat_text(n / 10) + seq![digit_char((n % 10) as u8)]
    }
}

/// Decimal text of an integer.
pub open spec fn int_text(i: int) -> Seq<char> {
    if i < 0 {
        seq!['-'] + nat_text((-i) as nat)
    } else {
        nat_text(i as nat)
    }
}

pub open spec fn sign_text(negative: bool) -> Seq<char> {
    if negative {
        seq!['-']
    } else {
        Seq::empty()
    }
}

/// How `f64`'s `Display` prints the number.
pub open spec fn display_text(n: SpecNumber) -> Seq<char> {
    match n {
        SpecNumber::Finite { negative, digits, exponent } => {
            if digits.len() == 0 {
                sign_text(negative) + seq!['0']
            } else if exponent >= 0 {
                sign_text(negative) + digit_chars(digits) + zeros(exponent as nat)
            } else if digits.len() + exponent > 0 {
                let k = digits.len() + exponent;
                sign_text(negative) + digit_chars(digits.take(k)) + seq!['.'] + digit_chars(
                    digits.skip(k),
                )
            } else {
                sign_text(negative) + seq!['0', '.'] + zeros((-(digits.len() + exponent)) as nat)
                    + digit_chars(digits)
            }
        },
        SpecNumber::Infinite { negative } => sign_text(negative) + "inf"@,
        SpecNumber::NotANumber => "NaN"@,
    }
}

/// `n as i64` for an integral finite number: the value, saturated to the range of `i64`.
pub open spec fn saturated_i64(negative: bool, value: nat) -> int {
    if negative {
        if value > 0x8000_0000_0000_0000 {
            -0x8000_0000_0000_0000
        } else {
            -(value as int)
        }
    } else {
        if value > 0x7fff_ffff_ffff_ffff {
            0x7fff_ffff_ffff_ffff
        } else {
            value as int
        }
    }
}

/// How a number is printed in RQL: integral values as `n as i64` prints,
/// others as `f64` prints.
pub open spec fn rql_text(n: SpecNumber) -> Seq<char> {
    match n {
        SpecNumber::Finite { negative, digits, exponent } => {
            if exponent >= 0 {
                int_text(saturated_i64(negative, digits_nat(digits) * pow10(exponent as nat)))
            } else {
                display_text(n)
            }
        },
        _ => display_text(n),
    }
}

/// One half.
pub open spec fn half() -> SpecNumber {
    SpecNumber::Finite { negative: false, digits: seq![5u8], exponent: -1 }
}

/// `-n`.
pub open spec fn negated(n: SpecNumber) -> SpecNumber {
    match n {
        SpecNumber::Finite { negative, digits, exponent } => SpecNumber::Finite {
            negative: !negative,
            digits,
            exponent,
        },
        SpecNumber::Infinite { negative } => SpecNumber::Infinite { negative: !negative },
        SpecNumber::NotANumber => SpecNumber::NotANumber,
    }
}

/// `(0.0..=1.0).contains(&n)`.
pub open spec fn in_unit_interval(n: SpecNumber) -> bool {
    match n {
        SpecNumber::Finite { negative, digits, exponent } => {
            digits.len() == 0 || (!negative && (digits.len() + exponent <= 0 || (digits =~= seq![
                1u8,
            ] && exponent == 0)))
        },
        _ => false,
    }
}

// ---------------------------------------------------------------------------
// Lemmas

pub proof fn lemma_digits_nat_bound(d: Seq<u8>)
    requires
        forall|i: int| 0 <= i < d.len() ==> #[trigger] d[i] < 10,
    ensures
        digits_nat(d) < pow10(d.len()),
    decreases d.len(),
{
    if d.len() > 0 {
        let p = d.drop_last();
        assert forall|i: int| 0 <= i < p.len() implies #[trigger] p[i] < 10 by {
            assert(p[i] == d[i]);
        }
        lemma_digits_nat_bound(p);
    }
}

pub proof fn lemma_digits_nat_lower(d: Seq<u8>)
    requires
        d.len() > 0,
        d[0] != 0,
    ensures
        digits_nat(d) >= pow10((d.len() - 1) as nat),
    decreases d.len(),
{
    if d.len() > 1 {
        let p = d.drop_last();
        assert(p[0] == d[0]);
        lemma_digits_nat_lower(p);
    }
}

pub proof fn lemma_pow10_mono(a: nat, b: nat)
    requires
        a <= b,
    ensures
        pow10(a) <= pow10(b),
    decreases b,
{
    if a < b {
        lemma_pow10_mono(a, (b - 1) as nat);
    }
}

pub proof fn lemma_pow10_add(a: nat, b: nat)
    ensures
        pow10(a) * pow10(b) == pow10(a + b),
    decreases a,
{
    if a > 0 {
        lemma_pow10_add((a - 1) as nat, b);
        let x = pow10((a - 1) as nat);
        let y = pow10(b);
        assert(pow10(a) == 10 * x);
        assert(pow10(a + b) == 10 * pow10((a - 1 + b) as nat));
        assert((10 * x) * y == 10 * (x * y)) by (nonlinear_arith);
    } else {
        assert(pow10(a) == 1);
        assert(1 * pow10(b) == pow10(b));
    }
}

pub proof fn lemma_pow10_values()
    ensures
        pow10(18) == 1_000_000_000_000_000_000,
        pow10(19) == 10_000_000_000_000_000_000,
{
    reveal_with_fuel(pow10, 20);
}

pub proof fn lemma_pow10_pos(a: nat)
    ensures
        pow10(a) >= 1,
    decreases a,
{
    if a > 0 {
        lemma_pow10_pos((a - 1) as nat);
    }
}

pub proof fn lemma_leading_zeros(d: Seq<u8>, i: int)
    requires
        0 <= i <= d.len(),
    ensures
        i <= leading_zeros_from(d, i) <= d.len(),
        forall|k: int| i <= k < leading_zeros_from(d, i) ==> #[trigger] d[k] == 0,
        leading_zeros_from(d, i) < d.len() ==> d[leading_zeros_from(d, i)] != 0,
    decreases d.len() - i,
{
    if i < d.len() && d[i] == 0 {
        lemma_leading_zeros(d, i + 1);
    }
}

pub proof fn lemma_trailing_zeros(d: Seq<u8>, j: int)
    requires
        0 <= j <= d.len(),
    ensures
        0 <= trailing_zeros_from(d, j) <= j,
        forall|k: int| trailing_zeros_from(d, j) <= k < j ==> #[trigger] d[k] == 0,
        trailing_zeros_from(d, j) > 0 ==> d[trailing_zeros_from(d, j) - 1] != 0,
    decreases j,
{
    if j > 0 && d[j - 1] == 0 {
        lemma_trailing_zeros(d, j - 1);
    }
}

pub proof fn lemma_nat_text_len(n: nat)
    ensures
        nat_text(n).len() >= 1,
    decreases n,
{
    if n >= 10 {
        lemma_nat_text_len(n / 10);
    }
}

pub proof fn lemma_make_number_wf(negative: bool, raw: Seq<u8>, exponent: int)
    requires
        forall|i: int| 0 <= i < raw.len() ==> #[trigger] raw[i] < 10,
    ensures
        number_wf(make_number(negative, raw, exponent)),
{
    lemma_leading_zeros(raw, 0);
    let start = leading_zeros_from(raw, 0);
    if start < raw.len() {
        lemma_trailing_zeros(raw, raw.len() as int);
        let end = trailing_zeros_from(raw, raw.len() as int);
        assert(end > start) by {
            if end <= start {
                assert(raw[start] == 0);
            }
        }
        let digits = raw.subrange(start, end);
        assert(digits[0] == raw[start]);
        assert(digits[digits.len() - 1] == raw[end - 1]);
    }
}

// ---------------------------------------------------------------------------
// Reading

fn digit_of(c: char) -> (d: u8)
    requires
        is_digit(c),
    ensures
        d == digit_value(c),
        d < 10,
{
    let d = (c as u32) - ('0' as u32);
    d as u8
}

/// Whether `s[from..to]` consists of ASCII digits only.
fn range_all_digits(s: &[char], from: usize, to: usize) -> (r: bool)
    requires
        from <= to <= s@.len(),
    ensures
        r == all_digits(s@.subrange(from as int, to as int)),
{
    let mut i = from;
    while i < to
        invariant
            from <= i <= to <= s@.len(),
            all_digits(s@.subrange(from as int, i as int)),
        decreases to - i,
    {
        if !char_is_digit(s[i]) {
            assert(!is_digit(s@.subrange(from as int, to as int)[i - from]));
            return false;
        }
        i = i + 1;
    }
    true
}

/// The digit values of `s[from..to]`, appended to `out`.
fn push_digit_values(s: &[char], from: usize, to: usize, out: &mut Vec<u8>)
    requires
        from <= to <= s@.len(),
        all_digits(s@.subrange(from as int, to as int)),
    ensures
        final(out)@ == old(out)@ + digit_values(s@.subrange(from as int, to as int)),
{
    let ghost start = out@;
    let mut i = from;
    while i < to
        invariant
            from <= i <= to <= s@.len(),
            all_digits(s@.subrange(from as int, to as int)),
            out@ == start + digit_values(s@.subrange(from as int, i as int)),
        decreases to - i,
    {
        assert(is_digit(s@.subrange(from as int, to as int)[i - from]));
        let d = digit_of(s[i]);
        out.push(d);
        assert(digit_values(s@.subrange(from as int, i + 1)) == digit_values(
            s@.subrange(from as int, i as int),
        ).push(d));
        i = i + 1;
    }
}

/// `min(cap, value of the digits s[from..to])`.
fn saturating_digits_value(s: &[char], from: usize, to: usize, cap: u128) -> (v: u128)
    requires
        from <= to <= s@.len(),
        all_digits(s@.subrange(from as int, to as int)),
        cap < 0x1000_0000_0000_0000_0000_0000_0000_0000,
    ensures
        v as int == if digits_nat(digit_values(s@.subrange(from as int, to as int))) > cap {
            cap as int
        } else {
            digits_nat(digit_values(s@.subrange(from as int, to as int))) as int
        },
{
    let mut v: u128 = 0;
    let mut i = from;
    while i < to
        invariant
            from <= i <= to <= s@.len(),
            all_digits(s@.subrange(from as int, to as int)),
            cap < 0x1000_0000_0000_0000_0000_0000_0000_0000,
            v as int == if digits_nat(digit_values(s@.subrange(from as int, i as int))) > cap {
                cap as int
            } else {
                digits_nat(digit_values(s@.subrange(from as int, i as int))) as int
            },
        decreases to - i,
    {
        assert(is_digit(s@.subrange(from as int, to as int)[i - from]));
        let d = digit_of(s[i]);
        let ghost prev = digit_values(s@.subrange(from as int, i as int));
        let ghost next = digit_values(s@.subrange(from as int, i + 1));
        assert(next.drop_last() == prev);
        assert(next.last() == d);
        assert(digits_nat(next) == digits_nat(prev) * 10 + d);
        if v >= cap {
            v = cap;
        } else {
            let w = v * 10 + d as u128;
            if w > cap {
                v = cap;
            } else {
                v = w;
            }
        }
        i = i + 1;
    }
    v
}

/// Index of the first `e`/`E` in `s[from..to]`, or `to`.
fn find_exp_mark(s: &[char], to: usize) -> (r: usize)
    requires
        to == s@.len(),
    ensures
        r == exp_mark_from(s@, 0),
        r <= s@.len(),
{
    let mut i: usize = 0;
    while i < to && s[i] != 'e' && s[i] != 'E'
        invariant
            i <= to == s@.len(),
            exp_mark_from(s@, 0) == exp_mark_from(s@, i as int),
        decreases to - i,
    {
        i = i + 1;
    }
    i
}

proof fn lemma_exp_mark_prefix(s: Seq<char>, i: int, n: int)
    requires
        0 <= i <= n <= s.len(),
        exp_mark_from(s, i) >= n,
    ensures
        exp_mark_from(s.subrange(0, n), i) == n,
    decreases n - i,
{
    if i < n {
        lemma_exp_mark_prefix(s, i + 1, n);
    }
}

fn find_dot(s: &[char], to: usize) -> (r: usize)
    requires
        to <= s@.len(),
    ensures
        r == dot_from(s@.subrange(0, to as int), 0),
        r <= to,
{
    let ghost m = s@.subrange(0, to as int);
    let mut i: usize = 0;
    while i < to && s[i] != '.'
        invariant
            i <= to <= s@.len(),
            m == s@.subrange(0, to as int),
            dot_from(m, 0) == dot_from(m, i as int),
        decreases to - i,
    {
        assert(m[i as int] == s@[i as int]);
        i = i + 1;
    }
    proof {
        if i < to {
            assert(m[i as int] == s@[i as int]);
        }
    }
    i
}

/// Normalizes `raw` digits scaled by `10^exponent` into a number.
fn make_number_exec(negative: bool, raw: &Vec<u8>, exponent: i128) -> (n: NumberRepr)
    requires
        forall|i: int| 0 <= i < raw@.len() ==> #[trigger] raw@[i] < 10,
        -0x1000_0000_0000_0000_0000_0000_0000 < exponent < 0x1000_0000_0000_0000_0000_0000_0000,
    ensures
        n@ == make_number(negative, raw@, exponent as int),
{
    proof {
        lemma_leading_zeros(raw@, 0);
        lemma_trailing_zeros(raw@, raw@.len() as int);
    }
    let mut start: usize = 0;
    while start < raw.len() && raw[start] == 0
        invariant
            start <= raw@.len(),
            leading_zeros_from(raw@, 0) == leading_zeros_from(raw@, start as int),
        decreases raw@.len() - start,
    {
        start = start + 1;
    }
    if start == raw.len() {
        return NumberRepr::Finite { negative, digits: Vec::new(), exponent: 0 };
    }
    let mut end: usize = raw.len();
    while end > 0 && raw[end - 1] == 0
        invariant
            end <= raw@.len(),
            trailing_zeros_from(raw@, raw@.len() as int) == trailing_zeros_from(raw@, end as int),
        decreases end,
    {
        end = end - 1;
    }
    assert(end > start) by {
        if end <= start {
            assert(raw@[start as int] == 0);
        }
    }
    let mut digits: Vec<u8> = Vec::new();
    let mut i = start;
    while i < end
        invariant
            start <= i <= end <= raw@.len(),
            digits@ == raw@.subrange(start as int, i as int),
        decreases end - i,
    {
        digits.push(raw[i]);
        assert(raw@.subrange(start as int, i + 1) == raw@.subrange(start as int, i as int).push(
            raw@[i as int],
        ));
        i = i + 1;
    }
    let exp: i128 = exponent + ((raw.len() - end) as i128);
    let mag: i128 = (end - start) as i128 + exp;
    if mag > MAX_MAGNITUDE {
        NumberRepr::Infinite { negative }
    } else if mag < MIN_MAGNITUDE {
        NumberRepr::Finite { negative, digits: Vec::new(), exponent: 0 }
    } else {
        NumberRepr::Finite { negative, digits, exponent: exp }
    }
}

fn eq_ignore_case_exec(a: &[char], from: usize, b: &str) -> (r: bool)
    requires
        from <= a@.len(),
    ensures
        r == eq_ignore_case(a@.subrange(from as int, a@.len() as int), b@),
{
    let bs = chars_of(b);
    let ghost x = a@.subrange(from as int, a@.len() as int);
    if a.len() - from != bs.len() {
        proof {
            assert(lower_seq(x).len() != lower_seq(b@).len());
        }
        return false;
    }
    let mut i: usize = 0;
    while i < bs.len()
        invariant
            bs@ == b@,
            from + bs@.len() == a@.len(),
            x == a@.subrange(from as int, a@.len() as int),
            a@.len() - from == bs@.len(),
            from + bs.len() == a.len(),
            i <= bs@.len(),
            forall|k: int| 0 <= k < i ==> lower(#[trigger] x[k]) == lower(b@[k]),
        decreases bs@.len() - i,
    {
        if char_lower(a[from + i]) != char_lower(bs[i]) {
            proof {
                assert(x[i as int] == a@[from + i]);
                assert(lower_seq(x)[i as int] != lower_seq(b@)[i as int]);
            }
            return false;
        }
        assert(x[i as int] == a@[from + i]);
        i = i + 1;
    }
    assert(lower_seq(x) =~= lower_seq(b@));
    true
}

/// Reads a number with the grammar of `f64::from_str`.
fn parse_float_exec(t: &[char]) -> (r: Option<NumberRepr>)
    ensures
        match r {
            Some(n) => parse_float(t@) == Some(n@) && number_wf(n@),
            None => parse_float(t@) is None,
        },
{
    let negative = t.len() > 0 && t[0] == '-';
    let skip: usize = if t.len() > 0 && (t[0] == '+' || t[0] == '-') {
        1
    } else {
        0
    };
    if eq_ignore_case_exec(t, skip, "inf") || eq_ignore_case_exec(t, skip, "infinity") {
        return Some(NumberRepr::Infinite { negative });
    }
    if eq_ignore_case_exec(t, skip, "nan") {
        return Some(NumberRepr::NotANumber);
    }
    let body_vec = slice_range(t, skip, t.len());
    parse_decimal_exec(negative, body_vec.as_slice())
}

/// Reads the exponent text `b[from..]` (`[+-]digits`), its magnitude capped at `cap`.
fn parse_exponent_exec(b: &[char], from: usize, cap: u128) -> (r: Option<i128>)
    requires
        from <= b@.len(),
        cap < 0x1000_0000_0000_0000_0000_0000,
    ensures
        match exponent_value(b@.subrange(from as int, b@.len() as int)) {
            Some(v) => r is Some && (r->0 == v || (r->0 == cap && v >= cap) || (r->0 == -(cap as int)
                && v <= -(cap as int))),
            None => r is None,
        },
        r is Some ==> -(cap as int) <= r->0 <= cap,
{
    let ghost etext = b@.subrange(from as int, b@.len() as int);
    let eneg = from < b.len() && b[from] == '-';
    let eskip: usize = if from < b.len() && (b[from] == '+' || b[from] == '-') {
        1
    } else {
        0
    };
    assert(etext.subrange(eskip as int, etext.len() as int) == b@.subrange(
        from + eskip,
        b@.len() as int,
    ));
    if from + eskip == b.len() || !range_all_digits(b, from + eskip, b.len()) {
        return None;
    }
    let v = saturating_digits_value(b, from + eskip, b.len(), cap);
    if eneg {
        Some(-(v as i128))
    } else {
        Some(v as i128)
    }
}

/// Reads `int[.frac][e[+-]exp]`.
fn parse_decimal_exec(negative: bool, b: &[char]) -> (r: Option<NumberRepr>)
    ensures
        match r {
            Some(n) => decimal_value(negative, b@) == Some(n@) && number_wf(n@),
            None => decimal_value(negative, b@) is None,
        },
{
    let ghost body = b@;
    let e = find_exp_mark(b, b.len());
    let d = find_dot(b, e);
    proof {
        lemma_exp_mark_prefix(body, 0, e as int);
    }
    let ghost mantissa = body.subrange(0, e as int);
    assert(body.subrange(0, d as int) == mantissa.subrange(0, d as int));
    let int_ok = range_all_digits(b, 0, d);
    let (frac_from, frac_to) = if d < e {
        (d + 1, e)
    } else {
        (e, e)
    };
    assert(d < e ==> body.subrange(frac_from as int, frac_to as int) == mantissa.subrange(
        d + 1,
        mantissa.len() as int,
    ));
    assert(d >= e ==> body.subrange(frac_from as int, frac_to as int) =~= Seq::<char>::empty());
    let frac_ok = range_all_digits(b, frac_from, frac_to);
    if !int_ok || !frac_ok || d + (frac_to - frac_from) == 0 {
        return None;
    }
    let total: usize = d + (frac_to - frac_from);
    let cap: u128 = total as u128 + 1000;
    let mut exp_value: i128 = 0;
    if e < b.len() {
        match parse_exponent_exec(b, e + 1, cap) {
            Some(v) => {
                exp_value = v;
            },
            None => {
                return None;
            },
        }
    }
    let mut raw: Vec<u8> = Vec::new();
    push_digit_values(b, 0, d, &mut raw);
    push_digit_values(b, frac_from, frac_to, &mut raw);
    let ghost int_part = body.subrange(0, d as int);
    let ghost frac_part = body.subrange(frac_from as int, frac_to as int);
    assert(digit_values(int_part) + digit_values(frac_part) =~= digit_values(int_part + frac_part));
    assert forall|i: int| 0 <= i < raw@.len() implies #[trigger] raw@[i] < 10 by {
        if i < d {
            assert(is_digit(int_part[i]));
        } else {
            assert(is_digit(frac_part[i - d]));
        }
    }
    let frac_len: i128 = (frac_to - frac_from) as i128;
    let n = make_number_exec(negative, &raw, exp_value - frac_len);
    proof {
        lemma_make_number_wf(negative, raw@, exp_value - frac_len);
        let ev: int = if e < body.len() {
            exponent_value(body.subrange(e + 1, body.len() as int))->0
        } else {
            0
        };
        lemma_saturated_exponent(negative, raw@, ev, exp_value as int, frac_len as int, total as int);
    }
    Some(n)
}

/// A saturated exponent gives the same number as the exact one.
proof fn lemma_saturated_exponent(negative: bool, raw: Seq<u8>, exact: int, sat: int, f: int, total: int)
    requires
        raw.len() == total,
        0 <= f <= total,
        sat == exact || (sat == total + 1000 && exact >= sat) || (sat == -(total + 1000) && exact <= sat),
    ensures
        make_number(negative, raw, sat - f) == make_number(negative, raw, exact - f),
{
    lemma_leading_zeros(raw, 0);
    lemma_trailing_zeros(raw, raw.len() as int);
}

} // verus!

verus! {

// ---------------------------------------------------------------------------
// Printing

fn digit_to_char(d: u8) -> (c: char)
    requires
        d < 10,
    ensures
        c == digit_char(d),
{
    let b: u8 = d + 48;
    let c = b as char;
    assert(c == ((d as u32) + 48) as char);
    c
}

/// Appends the decimal text of `n`.
pub fn push_nat_text(out: &mut String, n: u128)
    ensures
        final(out)@ == old(out)@ + nat_text(n as nat),
    decreases n,
{
    if n >= 10 {
        push_nat_text(out, n / 10);
    }
    let c = digit_to_char((n % 10) as u8);
    push_char(out, c);
    proof {
        if n < 10 {
            assert(nat_text(n as nat) == seq![digit_char(n as u8)]);
            assert((n % 10) as u8 == n as u8);
        }
    }
}

/// The decimal text of `n`.
pub fn nat_string(n: u128) -> (s: String)
    ensures
        s@ == nat_text(n as nat),
{
    let mut s = String::new();
    push_nat_text(&mut s, n);
    s
}

fn push_digit_chars(out: &mut String, d: &Vec<u8>, from: usize, to: usize)
    requires
        from <= to <= d@.len(),
        forall|i: int| 0 <= i < d@.len() ==> #[trigger] d@[i] < 10,
    ensures
        final(out)@ == old(out)@ + digit_chars(d@.subrange(from as int, to as int)),
{
    let ghost start = out@;
    let mut i = from;
    while i < to
        invariant
            from <= i <= to <= d@.len(),
            forall|i: int| 0 <= i < d@.len() ==> #[trigger] d@[i] < 10,
            out@ == start + digit_chars(d@.subrange(from as int, i as int)),
        decreases to - i,
    {
        let c = digit_to_char(d[i]);
        push_char(out, c);
        assert(digit_chars(d@.subrange(from as int, i + 1)) == digit_chars(
            d@.subrange(from as int, i as int),
        ).push(c));
        i = i + 1;
    }
}

fn push_zeros(out: &mut String, n: u128)
    ensures
        final(out)@ == old(out)@ + zeros(n as nat),
{
    let ghost start = out@;
    let mut i: u128 = 0;
    while i < n
        invariant
            i <= n,
            out@ == start + zeros(i as nat),
        decreases n - i,
    {
        push_char(out, '0');
        assert(zeros((i + 1) as nat) == zeros(i as nat).push('0'));
        i = i + 1;
    }
}

fn push_sign(out: &mut String, negative: bool)
    ensures
        final(out)@ == old(out)@ + sign_text(negative),
{
    if negative {
        push_char(out, '-');
        assert(sign_text(negative) == seq!['-']);
    } else {
        assert(old(out)@ + sign_text(negative) == old(out)@);
    }
}

/// The text `f64`'s `Display` prints for the number.
fn display_string(n: &NumberRepr) -> (s: String)
    requires
        number_wf(n@),
    ensures
        s@ == display_text(n@),
{
    let mut s = String::new();
    match n {
        NumberRepr::Finite { negative, digits, exponent } => {
            let len = digits.len();
            push_sign(&mut s, *negative);
            if len == 0 {
                push_char(&mut s, '0');
                assert(s@ == sign_text(*negative) + seq!['0']);
            } else if *exponent >= 0 {
                push_digit_chars(&mut s, digits, 0, len);
                assert(digits@.subrange(0, len as int) == digits@);
                push_zeros(&mut s, *exponent as u128);
            } else if len as i128 + *exponent > 0 {
                let k = (len as i128 + *exponent) as usize;
                push_digit_chars(&mut s, digits, 0, k);
                push_char(&mut s, '.');
                push_digit_chars(&mut s, digits, k, len);
                assert(digits@.subrange(0, k as int) == digits@.take(k as int));
                assert(digits@.subrange(k as int, len as int) == digits@.skip(k as int));
                assert(s@ == sign_text(*negative) + digit_chars(digits@.take(k as int)) + seq!['.']
                    + digit_chars(digits@.skip(k as int)));
            } else {
                push_char(&mut s, '0');
                push_char(&mut s, '.');
                push_zeros(&mut s, (-(len as i128 + *exponent)) as u128);
                push_digit_chars(&mut s, digits, 0, len);
                assert(digits@.subrange(0, len as int) == digits@);
                assert(s@ == sign_text(*negative) + seq!['0', '.'] + zeros(
                    (-(digits@.len() + *exponent)) as nat,
                ) + digit_chars(digits@));
            }
        },
        NumberRepr::Infinite { negative } => {
            push_sign(&mut s, *negative);
            push_str(&mut s, "inf");
        },
        NumberRepr::NotANumber => {
            push_str(&mut s, "NaN");
        },
    }
    s
}

/// The value `digits * 10^exponent` when it is below `10^19`.
fn small_integral_value(digits: &Vec<u8>, exponent: u128) -> (v: u64)
    requires
        normalized_digits(digits@),
        digits@.len() + exponent <= 19,
    ensures
        v as nat == digits_nat(digits@) * pow10(exponent as nat),
{
    let mut v: u64 = 0;
    let mut i: usize = 0;
    while i < digits.len()
        invariant
            normalized_digits(digits@),
            digits@.len() + exponent <= 19,
            i <= digits@.len(),
            v as nat == digits_nat(digits@.take(i as int)),
        decreases digits@.len() - i,
    {
        proof {
            lemma_digits_nat_bound(digits@.take(i as int));
            lemma_pow10_mono(i as nat, 18);
            lemma_pow10_values();
            assert(digits@.take(i + 1).drop_last() == digits@.take(i as int));
        }
        v = v * 10 + digits[i] as u64;
        i = i + 1;
    }
    assert(digits@.take(digits@.len() as int) == digits@);
    assert(pow10(0) == 1);
    assert(v as nat == digits_nat(digits@) * pow10(0));
    let mut j: u128 = 0;
    while j < exponent
        invariant
            normalized_digits(digits@),
            digits@.len() + exponent <= 19,
            j <= exponent,
            v as nat == digits_nat(digits@) * pow10(j as nat),
        decreases exponent - j,
    {
        proof {
            lemma_pow10_pos(j as nat);
            lemma_digits_nat_bound(digits@);
            lemma_pow10_add(digits@.len(), j as nat);
            lemma_pow10_mono((digits@.len() + j) as nat, 18);
            lemma_pow10_values();
            assert(digits_nat(digits@) * pow10(j as nat) < pow10(digits@.len()) * pow10(j as nat)) by (nonlinear_arith)
                requires
                    digits_nat(digits@) < pow10(digits@.len()),
                    pow10(j as nat) >= 1,
            {
            }
            lemma_pow10_pos(j as nat);
            assert(digits_nat(digits@) * pow10((j + 1) as nat) == (digits_nat(digits@) * pow10(j as nat)) * 10) by (nonlinear_arith)
                requires
                    pow10((j + 1) as nat) == 10 * pow10(j as nat),
            {
            }
        }
        v = v * 10;
        j = j + 1;
    }
    v
}

/// How a number is printed in RQL.
fn rql_string(n: &NumberRepr) -> (s: String)
    requires
        number_wf(n@),
    ensures
        s@ == rql_text(n@),
{
    match n {
        NumberRepr::Finite { negative, digits, exponent } => {
            if *exponent >= 0 {
                let len = digits.len();
                let e = *exponent as u128;
                let ghost value = digits_nat(digits@) * pow10(e as nat);
                let sat: u64;
                if len as u128 + e > 19 {
                    proof {
                        lemma_digits_nat_lower(digits@);
                        lemma_pow10_add((digits@.len() - 1) as nat, e as nat);
                        lemma_pow10_mono(19, (digits@.len() - 1 + e) as nat);
                        lemma_pow10_values();
                        lemma_pow10_pos(e as nat);
                        assert(digits_nat(digits@) * pow10(e as nat) >= pow10(
                            (digits@.len() - 1) as nat,
                        ) * pow10(e as nat)) by (nonlinear_arith)
                            requires
                                digits_nat(digits@) >= pow10((digits@.len() - 1) as nat),
                        {
                        }
                        assert(value >= 10_000_000_000_000_000_000);
                    }
                    sat = if *negative {
                        0x8000_0000_0000_0000
                    } else {
                        0x7fff_ffff_ffff_ffff
                    };
                } else {
                    if len == 0 {
                        assert(digits_nat(digits@) == 0);
                    }
                    let v = small_integral_value(digits, e);
                    sat = if *negative && v > 0x8000_0000_0000_0000 {
                        0x8000_0000_0000_0000
                    } else if !*negative && v > 0x7fff_ffff_ffff_ffff {
                        0x7fff_ffff_ffff_ffff
                    } else {
                        v
                    };
                }
                let mut s = String::new();
                if *negative && sat > 0 {
                    push_char(&mut s, '-');
                    push_nat_text(&mut s, sat as u128);
                    assert(saturated_i64(*negative, value) == -(sat as int));
                } else {
                    push_nat_text(&mut s, sat as u128);
                    assert(saturated_i64(*negative, value) == sat as int);
                }
                s
            } else {
                display_string(n)
            }
        },
        _ => display_string(n),
    }
}

/// `-n`.
fn negate_repr(n: NumberRepr) -> (r: NumberRepr)
    requires
        number_wf(n@),
    ensures
        r@ == negated(n@),
        number_wf(r@),
{
    match n {
        NumberRepr::Finite { negative, digits, exponent } => NumberRepr::Finite {
            negative: !negative,
            digits,
            exponent,
        },
        NumberRepr::Infinite { negative } => NumberRepr::Infinite { negative: !negative },
        NumberRepr::NotANumber => NumberRepr::NotANumber,
    }
}

/// `(0.0..=1.0).contains(&n)`.
fn is_in_unit_interval(n: &NumberRepr) -> (r: bool)
    requires
        number_wf(n@),
    ensures
        r == in_unit_interval(n@),
{
    match n {
        NumberRepr::Finite { negative, digits, exponent } => {
            if digits.len() == 0 {
                return true;
            }
            if *negative {
                return false;
            }
            if (digits.len() as i128) + *exponent <= 0 {
                return true;
            }
            let one = digits.len() == 1 && digits[0] == 1 && *exponent == 0;
            assert(one ==> digits@ =~= seq![1u8]);
            one
        },
        _ => false,
    }
}

/// Reads an unsigned integer (`u64::from_str` when `max` is `u64::MAX`).
pub fn parse_unsigned_exec(t: &[char], max: u64) -> (r: Option<u64>)
    ensures
        match r {
            Some(v) => parse_unsigned(t@, max as nat) == Some(v as nat),
            None => parse_unsigned(t@, max as nat) is None,
        },
{
    let skip: usize = if t.len() > 0 && t[0] == '+' {
        1
    } else {
        0
    };
    if skip == t.len() || !range_all_digits(t, skip, t.len()) {
        return None;
    }
    let v = saturating_digits_value(t, skip, t.len(), max as u128 + 1);
    if v > max as u128 {
        None
    } else {
        Some(v as u64)
    }
}

} // verus!
