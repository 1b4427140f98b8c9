//! Rewriting of the SQL text before it is parsed: the OPTION clause, which
//! SQL does not have, is split off, and an index name that the SQL grammar
//! does not accept bare (such as `idx:all`) is put in double quotes.
//!
//! The positions that the public functions take and give are byte offsets
//! into the UTF-8 text.

use vstd::prelude::*;
use vstd::utf8::{char_is_scalar, encode_scalar, encode_utf8, is_scalar};
use crate::sql_parser::error::{ErrorCategory, SpecSqlError, SqlError, plain_error};
use crate::sql_parser::number::{Number, SpecNumber, display_text, in_unit_interval, parse_float};
use crate::sql_parser::parser::aggregates::str_eq;
use crate::sql_parser::parser::expressions::{concat, syntax_err, unsupported_err};
use crate::sql_parser::parser::options::{QueryOptions, SpecQueryOptions, number_opt_view};
use crate::sql_parser::text::{
    char_is_alnum, char_is_whitespace, char_lower, chars_of, eq_ignore_case, is_alnum,
    is_whitespace, lemma_ws_prefix_bounds, lemma_ws_suffix_bounds, lower, lower_seq,
    lowercase_text, push_char, push_str, skip_whitespace, slice_range, string_of, to_lowercase,
    trim, trimmed, ws_prefix_from,
};

verus! {

// ---------------------------------------------------------------------------
// FROM identifiers

pub open spec fn is_word_char(c: char) -> bool {
    is_alnum(c) || c == '_'
}

/// The first position, from `i` on, of `kw` as a whole word outside quotes,
/// letters compared in ASCII lower case. `in_single` and `in_double` say
/// whether position `i` is inside a single- or double-quoted string.
pub open spec fn keyword_scan(s: Seq<char>, kw: Seq<char>, i: int, in_single: bool, in_double: bool) -> Option<int>
    decreases s.len() + 1 - i,
{
    if i < 0 || i + kw.len() > s.len() {
        None
    } else if lower(s[i]) == '\'' && !in_double {
        keyword_scan(s, kw, i + 1, !in_single, in_double)
    } else if lower(s[i]) == '"' && !in_single {
        keyword_scan(s, kw, i + 1, in_single, !in_double)
    } else if in_single || in_double {
        keyword_scan(s, kw, i + 1, in_single, in_double)
    } else if lower_seq(s.subrange(i, i + kw.len())) == kw && (i == 0 || !is_word_char(s[i - 1]))
        && (i + kw.len() == s.len() || !is_word_char(s[i + kw.len()])) {
        Some(i)
    } else {
        keyword_scan(s, kw, i + 1, in_single, in_double)
    }
}

pub open spec fn terminates_relation(c: char) -> bool {
    is_whitespace(c) || c == ',' || c == ';' || c == ')'
}

pub open spec fn quoting_needed(c: char) -> bool {
    !(is_alnum(c) || c == '_' || c == '$' || c == '.')
}

/// The first position from `i` on that ends a relation name (the length of
/// `s` if none does).
pub open spec fn terminator_from(s: Seq<char>, i: int) -> int
    decreases s.len() - i,
{
    if i < 0 || i >= s.len() {
        s.len() as int
    } else if terminates_relation(s[i]) {
        i
    } else {
        terminator_from(s, i + 1)
    }
}

/// The SQL text with the name after its first FROM keyword put in double
/// quotes, when that name is not already quoted and holds a character that a
/// bare SQL identifier cannot hold.
pub open spec fn quoted_from(s: Seq<char>) -> Seq<char> {
    match keyword_scan(s, "from"@, 0, false, false) {
        None => s,
        Some(f) => {
            let start = ws_prefix_from(s, f + 4);
            if start >= s.len() || s[start] == '"' {
                s
            } else {
                let end = terminator_from(s, start);
                let name = s.subrange(start, end);
                if exists|k: int| 0 <= k < name.len() && quoting_needed(#[trigger] name[k]) {
                    s.subrange(0, start) + seq!['"'] + name + seq!['"'] + s.subrange(end, s.len() as int)
                } else {
                    s
                }
            }
        },
    }
}

fn char_is_word(c: char) -> (r: bool)
    ensures
        r == is_word_char(c),
{
    char_is_alnum(c) || c == '_'
}

fn window_matches(s: &Vec<char>, i: usize, kw: &Vec<char>) -> (r: bool)
    requires
        i + kw@.len() <= s@.len(),
    ensures
        r == (lower_seq(s@.subrange(i as int, i + kw@.len())) == kw@),
{
    let mut j: usize = 0;
    while j < kw.len()
        invariant
            i + kw@.len() <= s.len(),
            j <= kw@.len(),
            forall|k: int| 0 <= k < j ==> lower(s@[i + k]) == kw@[k],
        decreases kw@.len() - j,
    {
        if char_lower(s[i + j]) != kw[j] {
            assert(lower_seq(s@.subrange(i as int, i + kw@.len()))[j as int] != kw@[j as int]);
            return false;
        }
        j = j + 1;
    }
    assert(lower_seq(s@.subrange(i as int, i + kw@.len())) =~= kw@);
    true
}

/// The character position of `kw` as a whole word outside quotes, if any.
fn keyword_position(s: &Vec<char>, kw: &Vec<char>) -> (r: Option<usize>)
    requires
        kw@.len() > 0,
    ensures
        match r {
            Some(i) => keyword_scan(s@, kw@, 0, false, false) == Some(i as int),
            None => keyword_scan(s@, kw@, 0, false, false) is None,
        },
{
    let ghost sql = s@;
    let ghost keyword = kw@;
    let mut in_single = false;
    let mut in_double = false;
    let mut i: usize = 0;
    while i <= s.len() && kw.len() <= s.len() - i
        invariant
            s@ == sql,
            kw@ == keyword,
            kw@.len() > 0,
            i <= s@.len(),
            keyword_scan(sql, keyword, 0, false, false) == keyword_scan(
                sql,
                keyword,
                i as int,
                in_single,
                in_double,
            ),
        decreases s@.len() - i,
    {
        let c = char_lower(s[i]);
        if c == '\'' && !in_double {
            in_single = !in_single;
        } else if c == '"' && !in_single {
            in_double = !in_double;
        } else if in_single || in_double {
        } else {
            let k = kw.len();
            if window_matches(&s, i, &kw) {
                let prev_ok = i == 0 || !char_is_word(s[i - 1]);
                let next_ok = i + k == s.len() || !char_is_word(s[i + k]);
                if prev_ok && next_ok {
                    return Some(i);
                }
            }
        }
        i = i + 1;
    }
    None
}

/// The byte offset of `keyword` as a whole word outside quotes, if any:
/// letters are compared in ASCII lower case, quotes toggle quoted strings.
pub fn find_keyword_outside_quotes(sql: &str, keyword: &str) -> (r: Option<usize>)
    requires
        keyword@.len() > 0,
    ensures
        match r {
            Some(b) => keyword_scan(sql@, keyword@, 0, false, false) matches Some(i) && b == byte_offset(
                sql@,
                i,
            ),
            None => keyword_scan(sql@, keyword@, 0, false, false) is None,
        },
{
    let s = chars_of(sql);
    let kw = chars_of(keyword);
    match keyword_position(&s, &kw) {
        Some(i) => {
            proof {
                lemma_keyword_scan_bounds(s@, kw@, 0, false, false);
            }
            let total = utf8_total(sql);
            Some(byte_offset_exec(&s, i, total))
        },
        None => None,
    }
}

fn is_relation_terminator(c: char) -> (r: bool)
    ensures
        r == terminates_relation(c),
{
    char_is_whitespace(c) || c == ',' || c == ';' || c == ')'
}

fn needs_identifier_quoting(c: char) -> (r: bool)
    ensures
        r == quoting_needed(c),
{
    !(char_is_alnum(c) || c == '_' || c == '$' || c == '.')
}

/// Puts the index name after FROM in double quotes when SQL cannot read it bare.
pub fn quote_nonstandard_from_identifier(sql: &str) -> (r: String)
    ensures
        r@ == quoted_from(sql@),
{
    proof {
        reveal_strlit("from");
    }
    let s = chars_of(sql);
    let from_kw = chars_of("from");
    let from_start = match keyword_position(&s, &from_kw) {
        Some(f) => f,
        None => {
            return String::from_str(sql);
        },
    };
    proof {
        lemma_keyword_scan_bounds(s@, from_kw@, 0, false, false);
    }
    assert(from_start + 4 <= s@.len());
    assert(s@.len() <= usize::MAX);
    let relation_start = skip_whitespace(s.as_slice(), from_start + 4);
    proof {
        lemma_ws_prefix_bounds(s@, from_start + 4);
    }
    if relation_start >= s.len() || s[relation_start] == '"' {
        return String::from_str(sql);
    }
    let mut relation_end = relation_start;
    while relation_end < s.len() && !is_relation_terminator(s[relation_end])
        invariant
            s@ == sql@,
            relation_start <= relation_end <= s@.len(),
            terminator_from(s@, relation_start as int) == terminator_from(s@, relation_end as int),
        decreases s@.len() - relation_end,
    {
        relation_end = relation_end + 1;
    }
    let mut needs = false;
    let mut k = relation_start;
    while k < relation_end
        invariant
            s@ == sql@,
            relation_start <= k <= relation_end <= s@.len(),
            needs == exists|j: int| relation_start <= j < k && quoting_needed(#[trigger] s@[j]),
        decreases relation_end - k,
    {
        if needs_identifier_quoting(s[k]) {
            needs = true;
        }
        k = k + 1;
    }
    let ghost name = s@.subrange(relation_start as int, relation_end as int);
    assert(needs == exists|j: int| 0 <= j < name.len() && quoting_needed(#[trigger] name[j])) by {
        if needs {
            let j = choose|j: int| relation_start <= j < relation_end && quoting_needed(#[trigger] s@[j]);
            assert(name[j - relation_start] == s@[j]);
        } else {
            assert forall|j: int| 0 <= j < name.len() implies !quoting_needed(#[trigger] name[j]) by {
                assert(name[j] == s@[relation_start + j]);
            }
        }
    }
    if !needs {
        return String::from_str(sql);
    }
    let mut rewritten = crate::sql_parser::text::string_of_range(s.as_slice(), 0, relation_start);
    push_char(&mut rewritten, '"');
    push_str(&mut rewritten, crate::sql_parser::text::string_of_range(s.as_slice(), relation_start, relation_end).as_str());
    push_char(&mut rewritten, '"');
    push_str(&mut rewritten, crate::sql_parser::text::string_of_range(s.as_slice(), relation_end, s.len()).as_str());
    rewritten
}

proof fn lemma_keyword_scan_bounds(s: Seq<char>, kw: Seq<char>, i: int, a: bool, b: bool)
    ensures
        match keyword_scan(s, kw, i, a, b) {
            Some(f) => 0 <= f && f + kw.len() <= s.len(),
            None => true,
        },
    decreases s.len() + 1 - i,
{
    if !(i < 0 || i + kw.len() > s.len()) {
        lemma_keyword_scan_bounds(s, kw, i + 1, !a, b);
        lemma_keyword_scan_bounds(s, kw, i + 1, a, !b);
        lemma_keyword_scan_bounds(s, kw, i + 1, a, b);
    }
}

/// The keyword search finds the same word in a text that agrees with `s` up to
/// position `n`, when the word ends at or before `n` and is still followed by a
/// character that does not continue a word.
proof fn lemma_keyword_scan_prefix(
    s: Seq<char>,
    t: Seq<char>,
    kw: Seq<char>,
    i: int,
    a: bool,
    b: bool,
    f: int,
    n: int,
)
    requires
        kw.len() > 0,
        0 <= i <= f,
        keyword_scan(s, kw, i, a, b) == Some(f),
        f + kw.len() <= n,
        n < s.len(),
        n < t.len(),
        forall|j: int| 0 <= j < n ==> s[j] == t[j],
        f + kw.len() == n ==> !is_word_char(t[n]),
    ensures
        keyword_scan(t, kw, i, a, b) == Some(f),
    decreases f - i,
{
    let k = kw.len() as int;
    assert(s[i] == t[i]);
    if i > 0 {
        assert(s[i - 1] == t[i - 1]);
    }
    assert(s.subrange(i, i + k) =~= t.subrange(i, i + k));
    if i + k < n {
        assert(s[i + k] == t[i + k]);
    }
    lemma_keyword_scan_from(s, kw, i + 1, !a, b);
    lemma_keyword_scan_from(s, kw, i + 1, a, !b);
    lemma_keyword_scan_from(s, kw, i + 1, a, b);
    assert(lower_seq(s.subrange(i, i + k)) == lower_seq(t.subrange(i, i + k)));
    if i < f {
        if lower(s[i]) == '\'' && !b {
            lemma_keyword_scan_prefix(s, t, kw, i + 1, !a, b, f, n);
        } else if lower(s[i]) == '"' && !a {
            lemma_keyword_scan_prefix(s, t, kw, i + 1, a, !b, f, n);
        } else {
            lemma_keyword_scan_prefix(s, t, kw, i + 1, a, b, f, n);
        }
    }
}

proof fn lemma_keyword_scan_from(s: Seq<char>, kw: Seq<char>, i: int, a: bool, b: bool)
    ensures
        keyword_scan(s, kw, i, a, b) matches Some(g) ==> g >= i,
    decreases s.len() + 1 - i,
{
    if !(i < 0 || i + kw.len() > s.len()) {
        lemma_keyword_scan_from(s, kw, i + 1, !a, b);
        lemma_keyword_scan_from(s, kw, i + 1, a, !b);
        lemma_keyword_scan_from(s, kw, i + 1, a, b);
    }
}

proof fn lemma_ws_prefix_same(s: Seq<char>, t: Seq<char>, i: int, start: int)
    requires
        0 <= i <= start < s.len(),
        start < t.len(),
        ws_prefix_from(s, i) == start,
        forall|j: int| 0 <= j < start ==> s[j] == t[j],
        !is_whitespace(t[start]),
    ensures
        ws_prefix_from(t, i) == start,
    decreases start - i,
{
    lemma_ws_prefix_bounds(s, i);
    if i < start {
        assert(is_whitespace(s[i]));
        assert(s[i] == t[i]);
        lemma_ws_prefix_same(s, t, i + 1, start);
    }
}

/// Quoting the name after FROM either leaves the text as it is or adds the
/// two quote characters; quoting a second time changes nothing.
pub proof fn lemma_quoting_idempotent(s: Seq<char>)
    ensures
        quoted_from(quoted_from(s)) == quoted_from(s),
        quoted_from(s) == s || quoted_from(s).len() == s.len() + 2,
{
    let q = quoted_from(s);
    if q != s {
        let f = keyword_scan(s, "from"@, 0, false, false)->Some_0;
        lemma_keyword_scan_bounds(s, "from"@, 0, false, false);
        let start = ws_prefix_from(s, f + 4);
        lemma_ws_prefix_bounds(s, f + 4);
        let end = terminator_from(s, start);
        lemma_terminator_bounds(s, start);
        let name = s.subrange(start, end);
        assert(q =~= s.subrange(0, start) + seq!['"'] + name + seq!['"'] + s.subrange(end, s.len() as int));
        assert(q[start] == '"');
        assert forall|j: int| 0 <= j < start implies s[j] == q[j] by {}
        assert("from"@.len() == 4) by {
            reveal_strlit("from");
        }
        lemma_keyword_scan_prefix(s, q, "from"@, 0, false, false, f, start);
        lemma_ws_prefix_same(s, q, f + 4, start);
    }
}

proof fn lemma_terminator_bounds(s: Seq<char>, i: int)
    requires
        0 <= i <= s.len(),
    ensures
        i <= terminator_from(s, i) <= s.len(),
    decreases s.len() - i,
{
    if i < s.len() && !terminates_relation(s[i]) {
        lemma_terminator_bounds(s, i + 1);
    }
}

// ---------------------------------------------------------------------------
// The OPTION keyword

/// Number of bytes of the character in UTF-8.
pub open spec fn utf8_len(c: char) -> int {
    if (c as u32) < 0x80 {
        1
    } else if (c as u32) < 0x800 {
        2
    } else if (c as u32) < 0x10000 {
        3
    } else {
        4
    }
}

/// Byte offset in UTF-8 of character `i`.
pub open spec fn byte_offset(s: Seq<char>, i: int) -> int
    decreases i,
{
    if i <= 0 || i > s.len() {
        0
    } else {
        byte_offset(s, i - 1) + utf8_len(s[i - 1])
    }
}

/// Whether the byte offset `b` falls between two characters (or at an end).
pub open spec fn is_char_boundary_at(s: Seq<char>, b: int) -> bool {
    exists|j: int| 0 <= j <= s.len() && #[trigger] byte_offset(s, j) == b
}

/// Whether the word OPTION (any case) stands at position `i`, with
/// whitespace or an end of the text on either side.
pub open spec fn option_keyword_at(s: Seq<char>, i: int) -> bool {
    &&& 0 <= i && i + 6 <= s.len()
    &&& eq_ignore_case(s.subrange(i, i + 6), "OPTION"@)
    &&& i == 0 || is_whitespace(s[i - 1])
    &&& i + 6 == s.len() || is_whitespace(s[i + 6])
}

/// What the search for OPTION meets from position `i` on.
pub enum OptionScan {
    /// The keyword at a position.
    Found(int),
    /// No keyword.
    Absent,
    /// Six bytes on from a character, the text is cut inside a character:
    /// taking that slice of a `str` panics.
    Splits,
}

/// The search for OPTION looks at the six bytes from each character on; it
/// stops when they run past the end of the text.
pub open spec fn option_scan(s: Seq<char>, i: int) -> OptionScan
    decreases s.len() - i,
{
    if i < 0 || i >= s.len() {
        OptionScan::Absent
    } else if byte_offset(s, i) + 6 > byte_offset(s, s.len() as int) {
        OptionScan::Absent
    } else if !is_char_boundary_at(s, byte_offset(s, i) + 6) {
        OptionScan::Splits
    } else if option_keyword_at(s, i) {
        OptionScan::Found(i)
    } else {
        option_scan(s, i + 1)
    }
}

/// Whether the text can be searched for OPTION without cutting a character.
pub open spec fn option_scannable(s: Seq<char>) -> bool {
    !(option_scan(s, 0) is Splits)
}

proof fn lemma_offset_step(s: Seq<char>, i: int)
    requires
        0 <= i < s.len(),
    ensures
        byte_offset(s, i + 1) == byte_offset(s, i) + utf8_len(s[i]),
        1 <= utf8_len(s[i]) <= 4,
{
}

proof fn lemma_offset_mono(s: Seq<char>, a: int, b: int)
    requires
        0 <= a <= b <= s.len(),
    ensures
        byte_offset(s, a) + (b - a) <= byte_offset(s, b),
        byte_offset(s, b) <= byte_offset(s, a) + 4 * (b - a),
    decreases b - a,
{
    if a < b {
        lemma_offset_mono(s, a, b - 1);
        lemma_offset_step(s, b - 1);
    }
}

proof fn lemma_offset_drop_first(s: Seq<char>, i: int)
    requires
        1 <= i <= s.len(),
    ensures
        byte_offset(s, i) == utf8_len(s[0]) + byte_offset(s.drop_first(), i - 1),
    decreases i,
{
    let d = s.drop_first();
    assert(byte_offset(s, i) == byte_offset(s, i - 1) + utf8_len(s[i - 1]));
    if i > 1 {
        lemma_offset_drop_first(s, i - 1);
        assert(d[i - 2] == s[i - 1]);
        assert(byte_offset(d, i - 1) == byte_offset(d, i - 2) + utf8_len(d[i - 2]));
    } else {
        assert(byte_offset(s, 0) == 0);
        assert(byte_offset(d, 0) == 0);
    }
}

/// The UTF-8 encoding of the characters has as many bytes as the offset of
/// their end.
proof fn lemma_encoded_len(s: Seq<char>)
    ensures
        encode_utf8(s).len() == byte_offset(s, s.len() as int),
    decreases s.len(),
{
    if s.len() > 0 {
        lemma_encoded_len(s.drop_first());
        lemma_offset_drop_first(s, s.len() as int);
        let v = s[0] as u32;
        char_is_scalar(s[0]);
        assert(is_scalar(v));
        assert(encode_scalar(v).len() == utf8_len(s[0]));
    }
}

/// The number of bytes of the text in UTF-8.
fn utf8_total(sql: &str) -> (n: usize)
    ensures
        n == byte_offset(sql@, sql@.len() as int),
{
    proof {
        lemma_encoded_len(sql@);
    }
    sql.as_bytes().len()
}

/// The byte offset of character `i`.
fn byte_offset_exec(s: &Vec<char>, i: usize, total: usize) -> (b: usize)
    requires
        i <= s@.len(),
        total == byte_offset(s@, s@.len() as int),
    ensures
        b == byte_offset(s@, i as int),
{
    let mut acc: usize = 0;
    let mut k: usize = 0;
    while k < i
        invariant
            k <= i <= s@.len(),
            total == byte_offset(s@, s@.len() as int),
            acc == byte_offset(s@, k as int),
        decreases i - k,
    {
        proof {
            lemma_offset_step(s@, k as int);
            lemma_offset_mono(s@, k as int + 1, s@.len() as int);
        }
        acc = acc + utf8_width(s[k]) as usize;
        k = k + 1;
    }
    acc
}

fn utf8_width(c: char) -> (n: u128)
    ensures
        n == utf8_len(c),
{
    let v = c as u32;
    if v < 0x80 {
        1
    } else if v < 0x800 {
        2
    } else if v < 0x10000 {
        3
    } else {
        4
    }
}

fn total_bytes(s: &Vec<char>) -> (n: u128)
    ensures
        n == byte_offset(s@, s@.len() as int),
{
    let mut acc: u128 = 0;
    let mut i: usize = 0;
    while i < s.len()
        invariant
            i <= s@.len(),
            acc == byte_offset(s@, i as int),
        decreases s@.len() - i,
    {
        proof {
            lemma_offset_step(s@, i as int);
            lemma_offset_mono(s@, 0, i as int);
        }
        assert(acc <= 4 * i);
        acc = acc + utf8_width(s[i]);
        i = i + 1;
    }
    acc
}

fn boundary_at(s: &Vec<char>, i: usize, off: u128, end: u128) -> (r: bool)
    requires
        i <= s@.len(),
        off == byte_offset(s@, i as int),
        off <= end <= byte_offset(s@, s@.len() as int),
    ensures
        r == is_char_boundary_at(s@, end as int),
{
    let mut k = i;
    let mut acc = off;
    proof {
        assert forall|j: int| 0 <= j < i implies #[trigger] byte_offset(s@, j) < end by {
            lemma_offset_mono(s@, j, i as int);
        }
    }
    while acc < end
        invariant
            i <= k <= s@.len(),
            acc == byte_offset(s@, k as int),
            end <= byte_offset(s@, s@.len() as int),
            forall|j: int| 0 <= j < k ==> #[trigger] byte_offset(s@, j) < end,
        decreases s@.len() - k,
    {
        assert(k < s.len());
        proof {
            lemma_offset_step(s@, k as int);
            lemma_offset_mono(s@, 0, k as int);
        }
        acc = acc + utf8_width(s[k]);
        k = k + 1;
    }
    if acc == end {
        assert(byte_offset(s@, k as int) == end);
        true
    } else {
        assert(acc > end);
        assert forall|j: int| 0 <= j <= s@.len() implies #[trigger] byte_offset(s@, j) != end by {
            if j >= k {
                lemma_offset_mono(s@, k as int, j);
            } else {
                assert(byte_offset(s@, j) < end);
            }
        }
        false
    }
}

fn option_keyword_at_exec(s: &Vec<char>, i: usize) -> (r: bool)
    requires
        i < s@.len(),
    ensures
        r == option_keyword_at(s@, i as int),
{
    if s.len() - i < 6 {
        return false;
    }
    let word = slice_range(s.as_slice(), i, i + 6);
    let lowered = crate::sql_parser::text::to_ascii_lowercase(string_of(word.as_slice()).as_str());
    proof {
        reveal_strlit("OPTION");
        reveal_strlit("option");
        assert(lower_seq("OPTION"@) =~= "option"@);
    }
    if !str_eq(lowered.as_str(), "option") {
        return false;
    }
    let prev_ok = i == 0 || char_is_whitespace(s[i - 1]);
    let next_ok = i + 6 == s.len() || char_is_whitespace(s[i + 6]);
    prev_ok && next_ok
}

/// The byte offset at which the OPTION keyword stands, if anywhere.
pub fn find_option_keyword(sql: &str) -> (r: Option<usize>)
    requires
        option_scannable(sql@),
    ensures
        match r {
            Some(b) => option_scan(sql@, 0) matches OptionScan::Found(i) && b == byte_offset(sql@, i),
            None => option_scan(sql@, 0) == OptionScan::Absent,
        },
{
    let s = chars_of(sql);
    match scan_for_option(&s) {
        OptionSearch::Found(i) => {
            proof {
                lemma_option_scan_found(s@, 0);
            }
            let total = utf8_total(sql);
            Some(byte_offset_exec(&s, i, total))
        },
        OptionSearch::Absent => None,
        OptionSearch::Splits => {
            assert(false);
            None
        },
    }
}

/// What the search for OPTION meets, as a value.
pub enum OptionSearch {
    Found(usize),
    Absent,
    Splits,
}

fn scan_for_option(s: &Vec<char>) -> (r: OptionSearch)
    ensures
        match r {
            OptionSearch::Found(i) => option_scan(s@, 0) == OptionScan::Found(i as int),
            OptionSearch::Absent => option_scan(s@, 0) == OptionScan::Absent,
            OptionSearch::Splits => option_scan(s@, 0) == OptionScan::Splits,
        },
{
    let total = total_bytes(s);
    let mut off: u128 = 0;
    let mut i: usize = 0;
    while i < s.len()
        invariant
            i <= s@.len(),
            off == byte_offset(s@, i as int),
            total == byte_offset(s@, s@.len() as int),
            option_scan(s@, 0) == option_scan(s@, i as int),
        decreases s@.len() - i,
    {
        proof {
            lemma_offset_step(s@, i as int);
            lemma_offset_mono(s@, i as int + 1, s@.len() as int);
            lemma_offset_mono(s@, 0, i as int);
        }
        let end = off + 6;
        if end > total {
            return OptionSearch::Absent;
        }
        if !boundary_at(s, i, off, end) {
            return OptionSearch::Splits;
        }
        if option_keyword_at_exec(s, i) {
            return OptionSearch::Found(i);
        }
        off = off + utf8_width(s[i]);
        i = i + 1;
    }
    OptionSearch::Absent
}

/// Whether searching the text for OPTION would cut a character in two.
pub fn option_search_splits(sql: &str) -> (r: bool)
    ensures
        r == !option_scannable(sql@),
{
    let s = chars_of(sql);
    match scan_for_option(&s) {
        OptionSearch::Splits => true,
        _ => false,
    }
}

// ---------------------------------------------------------------------------
// The OPTION clause

/// The position of the parenthesis that closes the one opened before
/// position `i`, `depth` parentheses being open there.
pub open spec fn closing_paren(s: Seq<char>, i: int, depth: nat) -> Result<int, SpecSqlError>
    decreases s.len() - i,
{
    if i < 0 || i >= s.len() {
        syntax_err("OPTION clause: missing closing parenthesis"@)
    } else if s[i] == '(' {
        closing_paren(s, i + 1, depth + 1)
    } else if s[i] == ')' {
        if depth == 0 {
            syntax_err("OPTION clause: unexpected closing parenthesis"@)
        } else if depth == 1 {
            Ok(i)
        } else {
            closing_paren(s, i + 1, (depth - 1) as nat)
        }
    } else {
        closing_paren(s, i + 1, depth)
    }
}

/// The first position from `i` on that holds `c` (the length of `s` if none does).
pub open spec fn char_index_from(s: Seq<char>, c: char, i: int) -> int
    decreases s.len() - i,
{
    if i < 0 || i >= s.len() {
        s.len() as int
    } else if s[i] == c {
        i
    } else {
        char_index_from(s, c, i + 1)
    }
}

/// The pieces of `s[start..]` between the occurrences of `c`, scanning from `i`
/// (`str::split` with a character).
pub open spec fn split_from(s: Seq<char>, c: char, start: int, i: int) -> Seq<Seq<char>>
    decreases s.len() - i,
{
    if i < 0 || i >= s.len() {
        seq![s.subrange(start, s.len() as int)]
    } else if s[i] == c {
        seq![s.subrange(start, i)] + split_from(s, c, i + 1, i + 1)
    } else {
        split_from(s, c, start, i + 1)
    }
}

/// A weight of the OPTION clause: a number from 0 to 1.
pub open spec fn weight_of(value: Seq<char>, name: Seq<char>) -> Result<SpecNumber, SpecSqlError> {
    match parse_float(value) {
        None => syntax_err(
            name + " must be a number between 0.0 and 1.0, got: '"@ + value + "'"@,
        ),
        Some(w) => if in_unit_interval(w) {
            Ok(w)
        } else {
            syntax_err(name + " must be between 0.0 and 1.0, got: "@ + display_text(w))
        },
    }
}

/// The options after one `key = value` pair; empty pairs change nothing.
pub open spec fn apply_option(acc: SpecQueryOptions, pair: Seq<char>) -> Result<SpecQueryOptions, SpecSqlError> {
    let p = trim(pair);
    if p.len() == 0 {
        Ok(acc)
    } else {
        let eq = char_index_from(p, '=', 0);
        if eq >= p.len() {
            syntax_err("Invalid OPTION format: '"@ + p + "'. Expected 'key = value'"@)
        } else {
            let key = lowercase_text(trim(p.subrange(0, eq)));
            let value = trim(p.subrange(eq + 1, p.len() as int));
            if key == "vector_weight"@ {
                match weight_of(value, "vector_weight"@) {
                    Err(err) => Err(err),
                    Ok(w) => Ok(SpecQueryOptions { vector_weight: Some(w), ..acc }),
                }
            } else if key == "text_weight"@ {
                match weight_of(value, "text_weight"@) {
                    Err(err) => Err(err),
                    Ok(w) => Ok(SpecQueryOptions { text_weight: Some(w), ..acc }),
                }
            } else {
                unsupported_err(
                    "Unknown OPTION key: '"@ + key
                        + "'. Supported keys: vector_weight, text_weight"@,
                )
            }
        }
    }
}

/// The options given by the pairs, in order; a later weight replaces an earlier one.
pub open spec fn options_of(pairs: Seq<Seq<char>>) -> Result<SpecQueryOptions, SpecSqlError>
    decreases pairs.len(),
{
    if pairs.len() == 0 {
        Ok(SpecQueryOptions { vector_weight: None, text_weight: None })
    } else {
        match options_of(pairs.drop_last()) {
            Err(err) => Err(err),
            Ok(acc) => apply_option(acc, pairs.last()),
        }
    }
}

/// The options of the text between the parentheses of OPTION (...).
pub open spec fn option_content(content: Seq<char>) -> Result<SpecQueryOptions, SpecSqlError> {
    options_of(split_from(content, ',', 0, 0))
}

/// The SQL text without its OPTION clause, and the options of the clause.
pub open spec fn option_split(s: Seq<char>) -> Result<(Seq<char>, SpecQueryOptions), SpecSqlError> {
    match option_scan(s, 0) {
        OptionScan::Found(idx) => {
            let paren_start = ws_prefix_from(s, idx + 6);
            if paren_start >= s.len() || s[paren_start] != '(' {
                syntax_err(
                    "OPTION clause must be followed by parentheses: OPTION (key = value, ...)"@,
                )
            } else {
                match closing_paren(s, paren_start, 0) {
                    Err(err) => Err(err),
                    Ok(paren_end) => if trim(s.subrange(paren_end + 1, s.len() as int)).len() != 0 {
                        syntax_err("OPTION clause must appear at the end of the query"@)
                    } else {
                        match option_content(s.subrange(paren_start + 1, paren_end)) {
                            Err(err) => Err(err),
                            Ok(o) => Ok((trim(s.subrange(0, idx)), o)),
                        }
                    },
                }
            }
        },
        _ => Ok((s, SpecQueryOptions { vector_weight: None, text_weight: None })),
    }
}

proof fn lemma_option_scan_found(s: Seq<char>, i: int)
    ensures
        option_scan(s, i) matches OptionScan::Found(f) ==> option_keyword_at(s, f),
    decreases s.len() - i,
{
    if 0 <= i < s.len() {
        lemma_option_scan_found(s, i + 1);
    }
}

proof fn lemma_closing_paren_bounds(s: Seq<char>, i: int, depth: nat)
    ensures
        match closing_paren(s, i, depth) {
            Ok(p) => i <= p < s.len(),
            Err(_) => true,
        },
    decreases s.len() - i,
{
    if 0 <= i < s.len() {
        if s[i] == '(' {
            lemma_closing_paren_bounds(s, i + 1, depth + 1);
        } else if s[i] == ')' {
            if depth > 1 {
                lemma_closing_paren_bounds(s, i + 1, (depth - 1) as nat);
            }
        } else {
            lemma_closing_paren_bounds(s, i + 1, depth);
        }
    }
}

/// The position of the parenthesis that closes the one at `open`.
fn matching_paren_in(s: &Vec<char>, open: usize) -> (r: Result<usize, SqlError>)
    requires
        open <= s@.len(),
    ensures
        match r {
            Ok(p) => closing_paren(s@, open as int, 0) == Ok::<int, SpecSqlError>(p as int),
            Err(e) => closing_paren(s@, open as int, 0) == Err::<int, SpecSqlError>(e@),
        },
{
    let mut depth: usize = 0;
    let mut i = open;
    while i < s.len()
        invariant
            open <= i <= s@.len(),
            depth <= i - open,
            closing_paren(s@, open as int, 0) == closing_paren(s@, i as int, depth as nat),
        decreases s@.len() - i,
    {
        if s[i] == '(' {
            depth = depth + 1;
        } else if s[i] == ')' {
            if depth == 0 {
                return Err(SqlError::syntax("OPTION clause: unexpected closing parenthesis"));
            }
            depth = depth - 1;
            if depth == 0 {
                return Ok(i);
            }
        }
        i = i + 1;
    }
    Err(SqlError::syntax("OPTION clause: missing closing parenthesis"))
}

/// The first character, from `j` on, that starts at or after byte `b` (the
/// length of `s` if none does).
pub open spec fn char_at_or_after(s: Seq<char>, b: int, j: int) -> int
    decreases s.len() - j,
{
    if j < 0 || j >= s.len() {
        s.len() as int
    } else if byte_offset(s, j) >= b {
        j
    } else {
        char_at_or_after(s, b, j + 1)
    }
}

proof fn lemma_char_at_or_after_bounds(s: Seq<char>, b: int, j: int)
    requires
        0 <= j <= s.len(),
    ensures
        j <= char_at_or_after(s, b, j) <= s.len(),
    decreases s.len() - j,
{
    if j < s.len() {
        lemma_char_at_or_after_bounds(s, b, j + 1);
    }
}

/// The byte offset of the parenthesis that closes the one opened at byte
/// offset `open_idx`: the characters are read from the first one that starts
/// at or after `open_idx`.
pub fn find_matching_paren(sql: &str, open_idx: usize) -> (r: Result<usize, SqlError>)
    ensures
        match r {
            Ok(b) => closing_paren(sql@, char_at_or_after(sql@, open_idx as int, 0), 0) matches Ok(i)
                && b == byte_offset(sql@, i),
            Err(e) => closing_paren(sql@, char_at_or_after(sql@, open_idx as int, 0), 0) == Err::<
                int,
                SpecSqlError,
            >(e@),
        },
{
    let s = chars_of(sql);
    let total = utf8_total(sql);
    let mut j: usize = 0;
    let mut off: usize = 0;
    while j < s.len() && off < open_idx
        invariant
            s@ == sql@,
            j <= s@.len(),
            total == byte_offset(s@, s@.len() as int),
            off == byte_offset(s@, j as int),
            char_at_or_after(s@, open_idx as int, 0) == char_at_or_after(s@, open_idx as int, j as int),
        decreases s@.len() - j,
    {
        proof {
            lemma_offset_step(s@, j as int);
            lemma_offset_mono(s@, j as int + 1, s@.len() as int);
        }
        off = off + utf8_width(s[j]) as usize;
        j = j + 1;
    }
    assert(char_at_or_after(s@, open_idx as int, j as int) == j);
    let p = matching_paren_in(&s, j)?;
    proof {
        lemma_closing_paren_bounds(s@, j as int, 0);
    }
    Ok(byte_offset_exec(&s, p, total))
}

/// The pieces of `s` between commas.
fn split_commas(s: &Vec<char>) -> (pieces: Vec<Vec<char>>)
    ensures
        pieces@.map_values(|p: Vec<char>| p@) == split_from(s@, ',', 0, 0),
{
    let mut pieces: Vec<Vec<char>> = Vec::new();
    let mut start: usize = 0;
    let mut i: usize = 0;
    while i < s.len()
        invariant
            start <= i <= s@.len(),
            split_from(s@, ',', 0, 0) == pieces@.map_values(|p: Vec<char>| p@) + split_from(
                s@,
                ',',
                start as int,
                i as int,
            ),
        decreases s@.len() - i,
    {
        if s[i] == ',' {
            let ghost before = pieces@;
            let piece = slice_range(s.as_slice(), start, i);
            pieces.push(piece);
            assert(pieces@.map_values(|p: Vec<char>| p@) =~= before.map_values(|p: Vec<char>| p@).push(
                s@.subrange(start as int, i as int),
            ));
            start = i + 1;
        }
        i = i + 1;
    }
    let ghost before = pieces@;
    let piece = slice_range(s.as_slice(), start, s.len());
    pieces.push(piece);
    assert(pieces@.map_values(|p: Vec<char>| p@) =~= before.map_values(|p: Vec<char>| p@).push(
        s@.subrange(start as int, s@.len() as int),
    ));
    pieces
}

/// Parses a weight value: a number between 0.0 and 1.0.
pub fn parse_weight_value(value: &str, name: &str) -> (r: Result<Number, SqlError>)
    ensures
        match r {
            Ok(w) => weight_of(value@, name@) == Ok::<SpecNumber, SpecSqlError>(w@),
            Err(e) => weight_of(value@, name@) == Err::<SpecNumber, SpecSqlError>(e@),
        },
{
    match Number::parse(value) {
        None => {
            let mut m = String::from_str(name);
            push_str(&mut m, " must be a number between 0.0 and 1.0, got: '");
            push_str(&mut m, value);
            push_str(&mut m, "'");
            Err(SqlError::syntax(m))
        },
        Some(w) => {
            if w.in_unit_interval() {
                Ok(w)
            } else {
                let mut m = String::from_str(name);
                push_str(&mut m, " must be between 0.0 and 1.0, got: ");
                push_str(&mut m, w.to_display_string().as_str());
                Err(SqlError::syntax(m))
            }
        },
    }
}

fn first_equals(p: &Vec<char>) -> (k: usize)
    ensures
        k == char_index_from(p@, '=', 0),
{
    let mut k: usize = 0;
    while k < p.len() && p[k] != '='
        invariant
            k <= p@.len(),
            char_index_from(p@, '=', 0) == char_index_from(p@, '=', k as int),
        decreases p@.len() - k,
    {
        k = k + 1;
    }
    k
}

fn apply_option_pair(options: &mut QueryOptions, pair: &Vec<char>) -> (r: Result<(), SqlError>)
    ensures
        match r {
            Ok(_) => apply_option(old(options)@, pair@) == Ok::<SpecQueryOptions, SpecSqlError>(
                final(options)@,
            ),
            Err(e) => apply_option(old(options)@, pair@) == Err::<SpecQueryOptions, SpecSqlError>(
                e@,
            ),
        },
{
    let p = trimmed(pair.as_slice());
    if p.len() == 0 {
        return Ok(());
    }
    let eq = first_equals(&p);
    if eq >= p.len() {
        let mut m = String::from_str("Invalid OPTION format: '");
        push_str(&mut m, string_of(p.as_slice()).as_str());
        push_str(&mut m, "'. Expected 'key = value'");
        return Err(SqlError::syntax(m));
    }
    let key_part = trimmed(slice_range(p.as_slice(), 0, eq).as_slice());
    let key = to_lowercase(string_of(key_part.as_slice()).as_str());
    let value = string_of(trimmed(slice_range(p.as_slice(), eq + 1, p.len()).as_slice()).as_slice());
    proof {
        reveal_strlit("vector_weight");
        reveal_strlit("text_weight");
    }
    if str_eq(key.as_str(), "vector_weight") {
        let w = parse_weight_value(value.as_str(), "vector_weight")?;
        options.vector_weight = Some(w);
        Ok(())
    } else if str_eq(key.as_str(), "text_weight") {
        let w = parse_weight_value(value.as_str(), "text_weight")?;
        options.text_weight = Some(w);
        Ok(())
    } else {
        let mut m = String::from_str("Unknown OPTION key: '");
        push_str(&mut m, key.as_str());
        push_str(&mut m, "'. Supported keys: vector_weight, text_weight");
        Err(SqlError::unsupported(m))
    }
}

/// Parses the content inside OPTION (...).
pub fn parse_option_content(content: &Vec<char>) -> (r: Result<QueryOptions, SqlError>)
    ensures
        match r {
            Ok(o) => option_content(content@) == Ok::<SpecQueryOptions, SpecSqlError>(o@),
            Err(e) => option_content(content@) == Err::<SpecQueryOptions, SpecSqlError>(e@),
        },
{
    let pieces = split_commas(content);
    let ghost ps = pieces@.map_values(|p: Vec<char>| p@);
    let mut options = QueryOptions::new();
    let mut i: usize = 0;
    assert(ps.take(0) =~= Seq::<Seq<char>>::empty());
    while i < pieces.len()
        invariant
            ps == pieces@.map_values(|p: Vec<char>| p@),
            ps == split_from(content@, ',', 0, 0),
            i <= ps.len(),
            options_of(ps.take(i as int)) == Ok::<SpecQueryOptions, SpecSqlError>(options@),
        decreases ps.len() - i,
    {
        assert(ps.take(i + 1).drop_last() == ps.take(i as int));
        assert(ps.take(i + 1).last() == pieces@[i as int]@);
        match apply_option_pair(&mut options, &pieces[i]) {
            Ok(_) => {},
            Err(e) => {
                proof {
                    lemma_options_error(ps, i as int);
                }
                return Err(e);
            },
        }
        i = i + 1;
    }
    assert(ps.take(ps.len() as int) == ps);
    Ok(options)
}

proof fn lemma_options_error(ps: Seq<Seq<char>>, i: int)
    requires
        0 <= i < ps.len(),
        options_of(ps.take(i)) is Ok,
        apply_option(options_of(ps.take(i))->Ok_0, ps[i]) is Err,
    ensures
        options_of(ps) == apply_option(options_of(ps.take(i))->Ok_0, ps[i]),
    decreases ps.len() - i,
{
    if i == ps.len() - 1 {
        assert(ps.drop_last() == ps.take(i));
    } else {
        assert(ps.drop_last().take(i) == ps.take(i));
        lemma_options_error(ps.drop_last(), i);
        assert(ps.drop_last()[i] == ps[i]);
    }
}

/// Splits the OPTION clause off the SQL text.
pub fn extract_option_clause(sql: &str) -> (r: Result<(String, QueryOptions), SqlError>)
    requires
        option_scannable(sql@),
    ensures
        match r {
            Ok((rest, o)) => option_split(sql@) == Ok::<(Seq<char>, SpecQueryOptions), SpecSqlError>(
                (rest@, o@),
            ),
            Err(e) => option_split(sql@) == Err::<(Seq<char>, SpecQueryOptions), SpecSqlError>(
                e@,
            ),
        },
{
    let s = chars_of(sql);
    let option_idx = match scan_for_option(&s) {
        OptionSearch::Found(i) => i,
        OptionSearch::Absent => {
            return Ok((String::from_str(sql), QueryOptions::new()));
        },
        OptionSearch::Splits => {
            assert(false);
            return Ok((String::from_str(sql), QueryOptions::new()));
        },
    };
    proof {
        lemma_option_scan_found(sql@, 0);
    }
    let option_end = option_idx + 6;
    let paren_start = skip_whitespace(s.as_slice(), option_end);
    proof {
        lemma_ws_prefix_bounds(s@, option_end as int);
    }
    if paren_start >= s.len() || s[paren_start] != '(' {
        return Err(
            SqlError::syntax(
                "OPTION clause must be followed by parentheses: OPTION (key = value, ...)",
            ),
        );
    }
    let paren_end = matching_paren_in(&s, paren_start)?;
    proof {
        assert(closing_paren(s@, paren_start as int, 0) == closing_paren(s@, paren_start + 1, 1));
        lemma_closing_paren_bounds(s@, paren_start + 1, 1);
    }
    let tail = trimmed(slice_range(s.as_slice(), paren_end + 1, s.len()).as_slice());
    if tail.len() != 0 {
        return Err(SqlError::syntax("OPTION clause must appear at the end of the query"));
    }
    let content = slice_range(s.as_slice(), paren_start + 1, paren_end);
    let options = parse_option_content(&content)?;
    let head = trimmed(slice_range(s.as_slice(), 0, option_idx).as_slice());
    Ok((string_of(head.as_slice()), options))
}

} // verus!
