//! Token parsers: each recognizes one fixed lexical unit at the start of the
//! input and hands back the unconsumed remainder, in the style of a
//! `(remainder, matched)` pair. All failures are values, never panics, so a
//! caller can absorb them (optional fields) or propagate them.

use vstd::prelude::*;
use vstd::string::StrSliceExecFns;

use crate::text::first_nl;
use crate::text::lemma_first_nl_unique;
use crate::text::starts_with;

verus! {

/// Why a parser did not match, as a value handed back to the caller.
/// Every parser is a pure function that only borrows its input, so the
/// caller keeps the exact slice the failure happened at, and each parser's
/// contract states which token was expected there; the error value itself
/// therefore only needs to carry the kind of failure.
#[derive(Clone, Copy, Debug, PartialEq, Eq, Structural)]
pub enum ParseError {
    /// An expected literal or delimiter was not found at the current position.
    TokenMismatch,
    /// None of a set of alternative literals matched.
    NoAlternativeMatched,
    /// A mandatory field was absent or malformed where it was expected.
    MissingRequiredField,
}

/// Result of one parser step: the unconsumed remainder paired with the
/// recognized output, or a typed failure.
pub type ParseResult<'a, O> = Result<(&'a str, O), ParseError>;

/// Recognizes exactly the literal `t` at the start of `i`.
fn expect_tag<'a>(i: &'a str, t: &str) -> (r: ParseResult<'a, &'a str>)
    ensures
        r is Ok <==> starts_with(i@, t@),
        r matches Ok((rest, v)) ==> v@ == t@ && rest@ == i@.skip(t@.len() as int) && i@ == t@
            + rest@,
        r matches Err(e) ==> e == ParseError::TokenMismatch,
{
    let n = t.unicode_len();
    let m = i.unicode_len();
    if m < n {
        return Err(ParseError::TokenMismatch);
    }
    let mut k: usize = 0;
    while k < n
        invariant
            0 <= k <= n <= m,
            n == t@.len(),
            m == i@.len(),
            forall|j: int| 0 <= j < k ==> i@[j] == t@[j],
        decreases n - k,
    {
        if i.get_char(k) != t.get_char(k) {
            proof {
                if starts_with(i@, t@) {
                    assert(i@.subrange(0, t@.len() as int)[k as int] == i@[k as int]);
                }
            }
            return Err(ParseError::TokenMismatch);
        }
        k += 1;
    }
    let v = i.substring_char(0, n);
    let rest = i.substring_char(n, m);
    proof {
        assert(i@.subrange(0, n as int) =~= t@);
        assert(i@ =~= t@ + rest@);
    }
    Ok((rest, v))
}

/// Recognizes the two-character key/value separator `": "`.
pub fn key_val_delimiter_parser<'a>(i: &'a str) -> (r: ParseResult<'a, &'a str>)
    ensures
        r is Ok <==> starts_with(i@, ": "@),
        r matches Ok((rest, v)) ==> v@ == ": "@ && rest@ == i@.skip(": "@.len() as int) && i@
            == ": "@ + rest@,
        r matches Err(e) ==> e == ParseError::TokenMismatch,
{
    expect_tag(i, ": ")
}

/// Recognizes the single-character line delimiter `"\n"`.
pub fn line_delimiter_parser<'a>(i: &'a str) -> (r: ParseResult<'a, &'a str>)
    ensures
        r is Ok <==> starts_with(i@, "\n"@),
        r matches Ok((rest, v)) ==> v@ == "\n"@ && rest@ == i@.skip("\n"@.len() as int) && i@
            == "\n"@ + rest@,
        r matches Err(e) ==> e == ParseError::TokenMismatch,
{
    expect_tag(i, "\n")
}

/// Recognizes the field-name keyword `Template`.
pub fn template_parser<'a>(i: &'a str) -> (r: ParseResult<'a, &'a str>)
    ensures
        r is Ok <==> starts_with(i@, "Template"@),
        r matches Ok((rest, v)) ==> v@ == "Template"@ && rest@ == i@.skip("Template"@.len() as int)
            && i@ == "Template"@ + rest@,
        r matches Err(e) ==> e == ParseError::TokenMismatch,
{
    expect_tag(i, "Template")
}

/// Recognizes the field-name keyword `Type`.
pub fn type_parser<'a>(i: &'a str) -> (r: ParseResult<'a, &'a str>)
    ensures
        r is Ok <==> starts_with(i@, "Type"@),
        r matches Ok((rest, v)) ==> v@ == "Type"@ && rest@ == i@.skip("Type"@.len() as int) && i@
            == "Type"@ + rest@,
        r matches Err(e) ==> e == ParseError::TokenMismatch,
{
    expect_tag(i, "Type")
}

/// Recognizes the field-name keyword `Default`.
pub fn parser_default_key<'a>(i: &'a str) -> (r: ParseResult<'a, &'a str>)
    ensures
        r is Ok <==> starts_with(i@, "Default"@),
        r matches Ok((rest, v)) ==> v@ == "Default"@ && rest@ == i@.skip("Default"@.len() as int)
            && i@ == "Default"@ + rest@,
        r matches Err(e) ==> e == ParseError::TokenMismatch,
{
    expect_tag(i, "Default")
}

/// True when `v` is one of the seven type-name literals of the closed
/// `Type` value set.
pub open spec fn is_type_literal(v: Seq<char>) -> bool {
    ||| v == "select"@
    ||| v == "multiselect"@
    ||| v == "string"@
    ||| v == "boolean"@
    ||| v == "note"@
    ||| v == "text"@
    ||| v == "password"@
}

/// True when some type-name literal is a prefix of `s`.
pub open spec fn type_value_at(s: Seq<char>) -> bool {
    ||| starts_with(s, "select"@)
    ||| starts_with(s, "multiselect"@)
    ||| starts_with(s, "string"@)
    ||| starts_with(s, "boolean"@)
    ||| starts_with(s, "note"@)
    ||| starts_with(s, "text"@)
    ||| starts_with(s, "password"@)
}

/// Recognizes the type-name literal `select`.
pub fn value_type_select<'a>(i: &'a str) -> (r: ParseResult<'a, &'a str>)
    ensures
        r is Ok <==> starts_with(i@, "select"@),
        r matches Ok((rest, v)) ==> v@ == "select"@ && i@ == "select"@ + rest@,
        r matches Err(e) ==> e == ParseError::TokenMismatch,
{
    expect_tag(i, "select")
}

/// Recognizes the type-name literal `multiselect`.
pub fn value_type_multiselect<'a>(i: &'a str) -> (r: ParseResult<'a, &'a str>)
    ensures
        r is Ok <==> starts_with(i@, "multiselect"@),
        r matches Ok((rest, v)) ==> v@ == "multiselect"@ && i@ == "multiselect"@ + rest@,
        r matches Err(e) ==> e == ParseError::TokenMismatch,
{
    expect_tag(i, "multiselect")
}

/// Recognizes the type-name literal `string`.
pub fn value_type_string<'a>(i: &'a str) -> (r: ParseResult<'a, &'a str>)
    ensures
        r is Ok <==> starts_with(i@, "string"@),
        r matches Ok((rest, v)) ==> v@ == "string"@ && i@ == "string"@ + rest@,
        r matches Err(e) ==> e == ParseError::TokenMismatch,
{
    expect_tag(i, "string")
}

/// Recognizes the type-name literal `boolean`.
pub fn value_type_boolean<'a>(i: &'a str) -> (r: ParseResult<'a, &'a str>)
    ensures
        r is Ok <==> starts_with(i@, "boolean"@),
        r matches Ok((rest, v)) ==> v@ == "boolean"@ && i@ == "boolean"@ + rest@,
        r matches Err(e) ==> e == ParseError::TokenMismatch,
{
    expect_tag(i, "boolean")
}

/// Recognizes the type-name literal `note`.
pub fn value_type_note<'a>(i: &'a str) -> (r: ParseResult<'a, &'a str>)
    ensures
        r is Ok <==> starts_with(i@, "note"@),
        r matches Ok((rest, v)) ==> v@ == "note"@ && i@ == "note"@ + rest@,
        r matches Err(e) ==> e == ParseError::TokenMismatch,
{
    expect_tag(i, "note")
}

/// Recognizes the type-name literal `text`.
pub fn value_type_text<'a>(i: &'a str) -> (r: ParseResult<'a, &'a str>)
    ensures
        r is Ok <==> starts_with(i@, "text"@),
        r matches Ok((rest, v)) ==> v@ == "text"@ && i@ == "text"@ + rest@,
        r matches Err(e) ==> e == ParseError::TokenMismatch,
{
    expect_tag(i, "text")
}

/// Recognizes the type-name literal `password`.
pub fn value_type_password<'a>(i: &'a str) -> (r: ParseResult<'a, &'a str>)
    ensures
        r is Ok <==> starts_with(i@, "password"@),
        r matches Ok((rest, v)) ==> v@ == "password"@ && i@ == "password"@ + rest@,
        r matches Err(e) ==> e == ParseError::TokenMismatch,
{
    expect_tag(i, "password")
}

/// Tries the seven type-name literals in a fixed order and commits to the
/// first that matches. The order only fixes determinism: none of the
/// literals is a prefix of another, so at most one can match.
pub fn value_type_literal<'a>(i: &'a str) -> (r: ParseResult<'a, &'a str>)
    ensures
        r is Ok <==> type_value_at(i@),
        r matches Ok((rest, v)) ==> is_type_literal(v@) && i@ == v@ + rest@,
        r matches Err(e) ==> e == ParseError::NoAlternativeMatched,
{
    if let Ok(p) = value_type_select(i) {
        return Ok(p);
    }
    if let Ok(p) = value_type_multiselect(i) {
        return Ok(p);
    }
    if let Ok(p) = value_type_string(i) {
        return Ok(p);
    }
    if let Ok(p) = value_type_boolean(i) {
        return Ok(p);
    }
    if let Ok(p) = value_type_note(i) {
        return Ok(p);
    }
    if let Ok(p) = value_type_text(i) {
        return Ok(p);
    }
    if let Ok(p) = value_type_password(i) {
        return Ok(p);
    }
    Err(ParseError::NoAlternativeMatched)
}

/// Consumes everything up to, but not including, the next newline, or the
/// whole input when it has none. An empty line is a valid (empty) value, so
/// this parser never fails.
pub fn keyval_parser<'a>(i: &'a str) -> (r: ParseResult<'a, &'a str>)
    ensures
        r is Ok,
        r matches Ok((rest, v)) ==> {
            &&& v@ == i@.take(first_nl(i@))
            &&& rest@ == i@.skip(first_nl(i@))
            &&& i@ == v@ + rest@
            &&& !v@.contains('\n')
            &&& rest@.len() > 0 ==> rest@[0] == '\n'
        },
{
    let m = i.unicode_len();
    let mut k: usize = 0;
    while k < m
        invariant
            0 <= k <= m,
            m == i@.len(),
            forall|j: int| 0 <= j < k ==> i@[j] != '\n',
        ensures
            0 <= k <= m,
            m == i@.len(),
            forall|j: int| 0 <= j < k ==> i@[j] != '\n',
            k < m ==> i@[k as int] == '\n',
        decreases m - k,
    {
        if i.get_char(k) == '\n' {
            break ;
        }
        k += 1;
    }
    proof {
        lemma_first_nl_unique(i@, k as int);
    }
    let v = i.substring_char(0, k);
    let rest = i.substring_char(k, m);
    proof {
        assert(i@ =~= v@ + rest@);
        if v@.contains('\n') {
            let j = choose|j: int| 0 <= j < v@.len() && v@[j] == '\n';
            assert(i@[j] == '\n');
        }
    }
    Ok((rest, v))
}

/// True for the ASCII alphanumerics that form the plain characters of an
/// escaped-text value.
pub open spec fn is_word_char(c: char) -> bool {
    ('a' <= c && c <= 'z') || ('A' <= c && c <= 'Z') || ('0' <= c && c <= '9')
}

/// True for the characters that may follow a backslash in an escaped-text
/// value: a quote, the letter `n`, or a second backslash.
pub open spec fn is_escapable(c: char) -> bool {
    c == '"' || c == 'n' || c == '\\'
}

/// Length of the longest prefix of `s` made of ASCII alphanumerics and
/// two-character escape sequences (a backslash followed by an escapable
/// character). The escapes are recognized, not decoded.
pub open spec fn escaped_len(s: Seq<char>) -> int
    decreases s.len(),
{
    if s.len() == 0 {
        0
    } else if is_word_char(s[0]) {
        1 + escaped_len(s.skip(1))
    } else if s[0] == '\\' && s.len() >= 2 && is_escapable(s[1]) {
        2 + escaped_len(s.skip(2))
    } else {
        0
    }
}

/// Reads an escaped-text value: the longest prefix of alphanumerics and
/// escape sequences, with the escapes passed through as their literal
/// two-character form. Fails when that prefix is empty.
pub fn parse_str<'a>(i: &'a str) -> (r: ParseResult<'a, &'a str>)
    ensures
        r is Ok <==> escaped_len(i@) > 0,
        r matches Ok((rest, v)) ==> v@ == i@.take(escaped_len(i@)) && rest@ == i@.skip(
            escaped_len(i@),
        ) && i@ == v@ + rest@,
        r matches Err(e) ==> e == ParseError::TokenMismatch,
{
    let m = i.unicode_len();
    let mut k: usize = 0;
    proof {
        assert(i@.skip(0) =~= i@);
    }
    while k < m
        invariant
            0 <= k <= m,
            m == i@.len(),
            escaped_len(i@) == k + escaped_len(i@.skip(k as int)),
        ensures
            0 <= k <= m,
            escaped_len(i@) == k,
        decreases m - k,
    {
        let c = i.get_char(k);
        proof {
            assert(i@.skip(k as int)[0] == i@[k as int]);
        }
        if is_word_char_exec(c) {
            proof {
                assert(i@.skip(k as int).skip(1) =~= i@.skip(k as int + 1));
            }
            k += 1;
        } else if c == '\\' && k + 1 < m && is_escapable_exec(i.get_char(k + 1)) {
            proof {
                assert(i@.skip(k as int)[1] == i@[k as int + 1]);
                assert(i@.skip(k as int).skip(2) =~= i@.skip(k as int + 2));
            }
            k += 2;
        } else {
            proof {
                let s = i@.skip(k as int);
                if k + 1 < m {
                    assert(s[1] == i@[k as int + 1]);
                }
                assert(escaped_len(s) == 0);
            }
            break ;
        }
    }
    if k == 0 {
        return Err(ParseError::TokenMismatch);
    }
    let v = i.substring_char(0, k);
    let rest = i.substring_char(k, m);
    proof {
        assert(i@ =~= v@ + rest@);
    }
    Ok((rest, v))
}

/// Executable check for `is_word_char`.
fn is_word_char_exec(c: char) -> (r: bool)
    ensures
        r == is_word_char(c),
{
    ('a' <= c && c <= 'z') || ('A' <= c && c <= 'Z') || ('0' <= c && c <= '9')
}

/// Executable check for `is_escapable`.
fn is_escapable_exec(c: char) -> (r: bool)
    ensures
        r == is_escapable(c),
{
    c == '"' || c == 'n' || c == '\\'
}

/// Whole-string equality, character by character.
pub fn str_eq(a: &str, b: &str) -> (r: bool)
    ensures
        r == (a@ == b@),
{
    let n = a.unicode_len();
    let m = b.unicode_len();
    if n != m {
        return false;
    }
    let mut k: usize = 0;
    while k < n
        invariant
            0 <= k <= n,
            n == a@.len(),
            n == b@.len(),
            forall|j: int| 0 <= j < k ==> a@[j] == b@[j],
        decreases n - k,
    {
        if a.get_char(k) != b.get_char(k) {
            return false;
        }
        k += 1;
    }
    proof {
        assert(a@ =~= b@);
    }
    true
}

} // verus!
