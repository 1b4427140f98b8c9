//! Character classification and string building on sequences of characters.

use vstd::prelude::*;

verus! {

/// `char::is_ascii_digit`.
pub open spec fn is_digit(c: char) -> bool {
    '0' <= c && c <= '9'
}

/// `char::is_ascii_alphabetic`.
pub open spec fn is_alpha(c: char) -> bool {
    ('a' <= c && c <= 'z') || ('A' <= c && c <= 'Z')
}

/// `char::is_ascii_alphanumeric`.
pub open spec fn is_alnum(c: char) -> bool {
    is_digit(c) || is_alpha(c)
}

/// `char::to_ascii_lowercase`.
pub open spec fn lower(c: char) -> char {
    if 'A' <= c && c <= 'Z' {
        ((c as u32) + 32) as char
    } else {
        c
    }
}

/// `char::is_whitespace`: the characters with the Unicode `White_Space` property.
pub open spec fn is_whitespace(c: char) -> bool {
    ||| ('\t' <= c && c <= '\r')
    ||| c == ' '
    ||| c == '\u{85}'
    ||| c == '\u{a0}'
    ||| c == '\u{1680}'
    ||| ('\u{2000}' <= c && c <= '\u{200a}')
    ||| c == '\u{2028}'
    ||| c == '\u{2029}'
    ||| c == '\u{202f}'
    ||| c == '\u{205f}'
    ||| c == '\u{3000}'
}

/// `char::is_control`: the characters of general category `Cc`.
pub open spec fn is_control(c: char) -> bool {
    c <= '\u{1f}' || ('\u{7f}' <= c && c <= '\u{9f}')
}

/// The characters of `s` with ASCII letters in lower case (`str::to_ascii_lowercase`).
pub open spec fn lower_seq(s: Seq<char>) -> Seq<char> {
    s.map_values(|c: char| lower(c))
}

/// `str::eq_ignore_ascii_case`.
pub open spec fn eq_ignore_case(a: Seq<char>, b: Seq<char>) -> bool {
    lower_seq(a) == lower_seq(b)
}

/// Number of leading whitespace characters of `s[i..]`.
pub open spec fn ws_prefix_from(s: Seq<char>, i: int) -> int
    decreases s.len() - i,
{
    if i < 0 || i >= s.len() || !is_whitespace(s[i]) {
        i
    } else {
        ws_prefix_from(s, i + 1)
    }
}

/// Start of the trailing run of whitespace in `s[..j]`.
pub open spec fn ws_suffix_from(s: Seq<char>, j: int) -> int
    decreases j,
{
    if j <= 0 || j > s.len() || !is_whitespace(s[j - 1]) {
        j
    } else {
        ws_suffix_from(s, j - 1)
    }
}

/// `str::trim_start`.
pub open spec fn trim_start(s: Seq<char>) -> Seq<char> {
    s.subrange(ws_prefix_from(s, 0), s.len() as int)
}

/// `str::trim_end`.
pub open spec fn trim_end(s: Seq<char>) -> Seq<char> {
    s.subrange(0, ws_suffix_from(s, s.len() as int))
}

/// `str::trim`.
pub open spec fn trim(s: Seq<char>) -> Seq<char> {
    trim_end(trim_start(s))
}

pub proof fn lemma_ws_prefix_bounds(s: Seq<char>, i: int)
    requires
        0 <= i <= s.len(),
    ensures
        i <= ws_prefix_from(s, i) <= s.len(),
        forall|k: int| i <= k < ws_prefix_from(s, i) ==> is_whitespace(#[trigger] s[k]),
        ws_prefix_from(s, i) < s.len() ==> !is_whitespace(s[ws_prefix_from(s, i)]),
    decreases s.len() - i,
{
    if i < s.len() && is_whitespace(s[i]) {
        lemma_ws_prefix_bounds(s, i + 1);
    }
}

pub proof fn lemma_ws_suffix_bounds(s: Seq<char>, j: int)
    requires
        0 <= j <= s.len(),
    ensures
        0 <= ws_suffix_from(s, j) <= j,
        forall|k: int| ws_suffix_from(s, j) <= k < j ==> is_whitespace(#[trigger] s[k]),
        ws_suffix_from(s, j) > 0 ==> !is_whitespace(s[ws_suffix_from(s, j) - 1]),
    decreases j,
{
    if j > 0 && is_whitespace(s[j - 1]) {
        lemma_ws_suffix_bounds(s, j - 1);
    }
}

pub fn char_is_digit(c: char) -> (r: bool)
    ensures
        r == is_digit(c),
{
    '0' <= c && c <= '9'
}

pub fn char_is_alnum(c: char) -> (r: bool)
    ensures
        r == is_alnum(c),
{
    ('0' <= c && c <= '9') || ('a' <= c && c <= 'z') || ('A' <= c && c <= 'Z')
}

pub fn char_is_whitespace(c: char) -> (r: bool)
    ensures
        r == is_whitespace(c),
{
    ('\t' <= c && c <= '\r') || c == ' ' || c == '\u{85}' || c == '\u{a0}' || c == '\u{1680}'
        || ('\u{2000}' <= c && c <= '\u{200a}') || c == '\u{2028}' || c == '\u{2029}' || c
        == '\u{202f}' || c == '\u{205f}' || c == '\u{3000}'
}

pub fn char_is_control(c: char) -> (r: bool)
    ensures
        r == is_control(c),
{
    c <= '\u{1f}' || ('\u{7f}' <= c && c <= '\u{9f}')
}

pub fn char_lower(c: char) -> (r: char)
    ensures
        r == lower(c),
{
    if 'A' <= c && c <= 'Z' {
        let u: u32 = (c as u32) + 32;
        assert(u == (c as u32) + 32);
        char_from_ascii_lower(c)
    } else {
        c
    }
}

fn char_from_ascii_lower(c: char) -> (r: char)
    requires
        'A' <= c && c <= 'Z',
    ensures
        r == ((c as u32) + 32) as char,
{
    let b: u8 = (c as u8) + 32;
    let r = b as char;
    assert(r == ((c as u32) + 32) as char) by {
        assert((c as u8) as u32 == c as u32);
    }
    r
}

/// `String::push`: appends the character.
#[verifier::external_body]
pub(crate) fn push_char(s: &mut String, c: char)
    ensures
        final(s)@ == old(s)@.push(c),
{
    s.push(c);
}

/// Appends `t` to `s`.
pub fn push_str(s: &mut String, t: &str)
    ensures
        final(s)@ == old(s)@ + t@,
{
    s.append(t);
}

/// The characters of a string slice, in order.
pub fn chars_of(s: &str) -> (v: Vec<char>)
    ensures
        v@ == s@,
{
    let mut v: Vec<char> = Vec::new();
    for c in iter: s.chars()
        invariant
            v@ == iter.seq().take(iter.index() as int),
            iter.seq() == s@,
    {
        v.push(c);
    }
    v
}

/// A string holding the characters `cs[from..to]`.
pub fn string_of_range(cs: &[char], from: usize, to: usize) -> (s: String)
    requires
        from <= to <= cs@.len(),
    ensures
        s@ == cs@.subrange(from as int, to as int),
{
    let mut s = String::new();
    let mut i = from;
    while i < to
        invariant
            from <= i <= to <= cs@.len(),
            s@ == cs@.subrange(from as int, i as int),
        decreases to - i,
    {
        push_char(&mut s, cs[i]);
        assert(cs@.subrange(from as int, i + 1) == cs@.subrange(from as int, i as int).push(
            cs@[i as int],
        ));
        i = i + 1;
    }
    s
}

/// A string holding all the characters of `cs`.
pub fn string_of(cs: &[char]) -> (s: String)
    ensures
        s@ == cs@,
{
    let s = string_of_range(cs, 0, cs.len());
    assert(cs@.subrange(0, cs@.len() as int) == cs@);
    s
}

/// `str::to_ascii_lowercase`.
pub fn to_ascii_lowercase(s: &str) -> (r: String)
    ensures
        r@ == lower_seq(s@),
{
    let cs = chars_of(s);
    let mut r = String::new();
    let mut i: usize = 0;
    while i < cs.len()
        invariant
            cs@ == s@,
            i <= cs@.len(),
            r@ == lower_seq(cs@.take(i as int)),
        decreases cs@.len() - i,
    {
        let c = char_lower(cs[i]);
        push_char(&mut r, c);
        assert(lower_seq(cs@.take(i + 1)) == lower_seq(cs@.take(i as int)).push(lower(cs@[i as int])));
        i = i + 1;
    }
    assert(cs@.take(cs@.len() as int) == cs@);
    r
}

/// Index of the first character of `s[i..]` that is not whitespace.
pub fn skip_whitespace(s: &[char], i: usize) -> (r: usize)
    requires
        i <= s@.len(),
    ensures
        r == ws_prefix_from(s@, i as int),
{
    proof {
        lemma_ws_prefix_bounds(s@, i as int);
    }
    let mut k = i;
    while k < s.len() && char_is_whitespace(s[k])
        invariant
            i <= k <= s@.len(),
            ws_prefix_from(s@, i as int) == ws_prefix_from(s@, k as int),
        decreases s@.len() - k,
    {
        k = k + 1;
    }
    k
}

/// Start of the trailing whitespace of `s[..j]`.
pub fn trailing_whitespace_start(s: &[char], j: usize) -> (r: usize)
    requires
        j <= s@.len(),
    ensures
        r == ws_suffix_from(s@, j as int),
{
    let mut k = j;
    while k > 0 && char_is_whitespace(s[k - 1])
        invariant
            k <= j <= s@.len(),
            ws_suffix_from(s@, j as int) == ws_suffix_from(s@, k as int),
        decreases k,
    {
        k = k - 1;
    }
    k
}

/// What `str::to_uppercase` gives for the characters (Unicode upper case).
pub uninterp spec fn uppercase_text(s: Seq<char>) -> Seq<char>;

/// What `str::to_lowercase` gives for the characters (Unicode lower case).
pub uninterp spec fn lowercase_text(s: Seq<char>) -> Seq<char>;

/// `str::to_uppercase`. The contract names the result `uppercase_text` of
/// the characters and says nothing more of the Unicode case mapping.
#[verifier::external_body]
pub(crate) fn to_uppercase(s: &str) -> (r: String)
    ensures
        r@ == uppercase_text(s@),
{
    s.to_uppercase()
}

/// `str::to_lowercase`. The contract names the result `lowercase_text` of
/// the characters and says nothing more of the Unicode case mapping.
#[verifier::external_body]
pub(crate) fn to_lowercase(s: &str) -> (r: String)
    ensures
        r@ == lowercase_text(s@),
{
    s.to_lowercase()
}

/// `s[from..to]` as a vector.
pub fn slice_range(s: &[char], from: usize, to: usize) -> (v: Vec<char>)
    requires
        from <= to <= s@.len(),
    ensures
        v@ == s@.subrange(from as int, to as int),
{
    let mut v: Vec<char> = Vec::new();
    let mut i = from;
    while i < to
        invariant
            from <= i <= to <= s@.len(),
            v@ == s@.subrange(from as int, i as int),
        decreases to - i,
    {
        v.push(s[i]);
        assert(s@.subrange(from as int, i + 1) == s@.subrange(from as int, i as int).push(s@[i as int]));
        i = i + 1;
    }
    v
}

/// `str::trim` on a sequence of characters.
pub fn trimmed(cs: &[char]) -> (v: Vec<char>)
    ensures
        v@ == trim(cs@),
{
    let p = skip_whitespace(cs, 0);
    proof {
        lemma_ws_prefix_bounds(cs@, 0);
    }
    let t = slice_range(cs, p, cs.len());
    let q = trailing_whitespace_start(t.as_slice(), t.len());
    proof {
        lemma_ws_suffix_bounds(t@, t@.len() as int);
    }
    slice_range(t.as_slice(), 0, q)
}

} // verus!
