//! Field-line and stanza parsers: one complete `Key: Value` line per field,
//! assembled in the fixed order `Template`, `Type`, optional `Default`.
//! Each field line is all-or-nothing: on failure the caller's position is
//! untouched, because every parser only borrows its input slice.

use vstd::prelude::*;
use vstd::string::StringExecFns;

use crate::text::first_nl;
use crate::text::lemma_concat_parts;
use crate::text::lemma_first_nl;
use crate::text::lemma_first_nl_of_split;
use crate::text::lemma_prefix_line_unique;
use crate::text::lemma_starts_with_index;
use crate::text::lemma_starts_with_split;
use crate::text::starts_with;
use crate::tokens::is_type_literal;
use crate::tokens::key_val_delimiter_parser;
use crate::tokens::keyval_parser;
use crate::tokens::line_delimiter_parser;
use crate::tokens::parser_default_key;
use crate::tokens::str_eq;
use crate::tokens::template_parser;
use crate::tokens::type_parser;
use crate::tokens::type_value_at;
use crate::tokens::value_type_literal;
use crate::tokens::ParseError;
use crate::tokens::ParseResult;

verus! {

/// The text of one `Key: Value` field line followed by the remainder:
/// the key, the `": "` separator, the value, the newline, then `rest`.
pub open spec fn field_line_of(key: Seq<char>, val: Seq<char>, rest: Seq<char>) -> Seq<char> {
    key + ": "@ + val + "\n"@ + rest
}

/// What follows the key and separator of a field line.
pub open spec fn field_line_body(i: Seq<char>, key: Seq<char>) -> Seq<char> {
    i.skip((key + ": "@).len() as int)
}

/// True when `i` begins with a complete field line for `key`: the key, the
/// exact `": "` separator, and a value terminated by a newline.
pub open spec fn field_line_matches(i: Seq<char>, key: Seq<char>) -> bool {
    &&& starts_with(i, key + ": "@)
    &&& first_nl(field_line_body(i, key)) < field_line_body(i, key).len()
}

/// The raw value of the field line: everything between the separator and
/// the first newline, taken verbatim.
pub open spec fn field_line_value(i: Seq<char>, key: Seq<char>) -> Seq<char> {
    field_line_body(i, key).take(first_nl(field_line_body(i, key)))
}

/// What remains of `i` after the field line, its newline included, has
/// been consumed.
pub open spec fn field_line_rest(i: Seq<char>, key: Seq<char>) -> Seq<char> {
    field_line_body(i, key).skip(first_nl(field_line_body(i, key)) + 1)
}

/// Any newline-free value embedded between `key + ": "` and a newline is
/// recognized, and is returned verbatim: the value's own content — even one
/// that spells a field keyword or a type literal — never changes how a raw
/// field line is read.
pub proof fn lemma_field_line_build(key: Seq<char>, val: Seq<char>, rest: Seq<char>)
    requires
        !val.contains('\n'),
    ensures
        field_line_matches(field_line_of(key, val, rest), key),
        field_line_value(field_line_of(key, val, rest), key) == val,
        field_line_rest(field_line_of(key, val, rest), key) == rest,
{
    let i = field_line_of(key, val, rest);
    let sep = key + ": "@;
    let tail = val + "\n"@ + rest;
    assert(i =~= sep + tail);
    lemma_concat_parts(sep, tail);
    assert(field_line_body(i, key) == tail);
    reveal_strlit("\n");
    assert(("\n"@ + rest)[0] == '\n');
    assert(tail =~= val + ("\n"@ + rest));
    lemma_first_nl_of_split(val, "\n"@ + rest);
    assert(first_nl(tail) == val.len());
    assert(field_line_value(i, key) =~= val);
    assert(field_line_rest(i, key) =~= rest);
}

/// A matched field line splits its input exactly: re-concatenating the
/// key, the separator, the value and the line terminator, then the
/// remainder, reproduces the original input.
pub proof fn lemma_field_line_parts(i: Seq<char>, key: Seq<char>)
    requires
        field_line_matches(i, key),
    ensures
        i == field_line_of(key, field_line_value(i, key), field_line_rest(i, key)),
        !field_line_value(i, key).contains('\n'),
{
    let sep = key + ": "@;
    let body = field_line_body(i, key);
    let p = first_nl(body);
    lemma_first_nl(body);
    let val = field_line_value(i, key);
    let rest = field_line_rest(i, key);
    if val.contains('\n') {
        let j = choose|j: int| 0 <= j < val.len() && val[j] == '\n';
        assert(body[j] == '\n');
    }
    lemma_starts_with_index(i, sep);
    reveal_strlit("\n");
    assert(body =~= val + "\n"@ + rest);
    assert(i =~= sep + body);
    assert(i =~= field_line_of(key, val, rest));
}

/// Without the key and its exact `": "` separator there is no field line.
proof fn lemma_field_line_no_sep(i: Seq<char>, key: Seq<char>)
    requires
        !starts_with(i, key + ": "@),
    ensures
        !field_line_matches(i, key),
{
}

/// With no newline after the separator there is no field line.
proof fn lemma_field_line_no_nl(i: Seq<char>, key: Seq<char>, val: Seq<char>)
    requires
        starts_with(i, key + ": "@),
        field_line_body(i, key) == val,
        !val.contains('\n'),
    ensures
        !field_line_matches(i, key),
{
    let body = field_line_body(i, key);
    lemma_first_nl(body);
    if first_nl(body) < body.len() {
        assert(val[first_nl(body)] == '\n');
        assert(val.contains('\n'));
    }
}

/// The text of a complete `Type` field line with literal `t`: the keyword,
/// the `": "` separator, the type-name literal and the newline.
pub open spec fn type_line_of(t: Seq<char>) -> Seq<char> {
    "Type"@ + ": "@ + t + "\n"@
}

/// True when `i` begins with a complete `Type` field line whose value is
/// one of the seven type-name literals.
pub open spec fn type_line_matches(i: Seq<char>) -> bool {
    exists|t: Seq<char>| #[trigger] is_type_literal(t) && starts_with(i, type_line_of(t))
}

/// The type-name literal of the `Type` line at the start of `i`, tried in
/// the parser's fixed priority order; the empty sequence when none matches.
/// None of the literals is a prefix of another, so the order only fixes
/// determinism.
pub open spec fn type_line_value(i: Seq<char>) -> Seq<char> {
    if starts_with(i, type_line_of("select"@)) {
        "select"@
    } else if starts_with(i, type_line_of("multiselect"@)) {
        "multiselect"@
    } else if starts_with(i, type_line_of("string"@)) {
        "string"@
    } else if starts_with(i, type_line_of("boolean"@)) {
        "boolean"@
    } else if starts_with(i, type_line_of("note"@)) {
        "note"@
    } else if starts_with(i, type_line_of("text"@)) {
        "text"@
    } else if starts_with(i, type_line_of("password"@)) {
        "password"@
    } else {
        Seq::empty()
    }
}

/// What remains of `i` after the `Type` line, its newline included, has
/// been consumed.
pub open spec fn type_line_rest(i: Seq<char>) -> Seq<char> {
    i.skip(type_line_of(type_line_value(i)).len() as int)
}

/// No type-name literal contains a newline, and none is empty.
pub proof fn lemma_type_literal_no_nl(t: Seq<char>)
    requires
        is_type_literal(t),
    ensures
        !t.contains('\n'),
        t.len() > 0,
{
    reveal_strlit("select");
    reveal_strlit("multiselect");
    reveal_strlit("string");
    reveal_strlit("boolean");
    reveal_strlit("note");
    reveal_strlit("text");
    reveal_strlit("password");
}

/// At one position, at most one type-name literal can match: none of the
/// seven is a prefix of another.
pub proof fn lemma_type_literal_prefix_unique(u: Seq<char>, a: Seq<char>, b: Seq<char>)
    requires
        is_type_literal(a),
        is_type_literal(b),
        starts_with(u, a),
        starts_with(u, b),
    ensures
        a == b,
{
    reveal_strlit("select");
    reveal_strlit("multiselect");
    reveal_strlit("string");
    reveal_strlit("boolean");
    reveal_strlit("note");
    reveal_strlit("text");
    reveal_strlit("password");
    lemma_starts_with_index(u, a);
    lemma_starts_with_index(u, b);
    assert(a[0] == u[0] && b[0] == u[0]);
    assert(a[1] == u[1] && b[1] == u[1]);
    if a.len() == b.len() {
        assert forall|j: int| 0 <= j < a.len() implies a[j] == b[j] by {
            assert(a[j] == u[j]);
            assert(b[j] == u[j]);
        }
        assert(a =~= b);
    }
}

/// At one position, at most one complete `Type` line can match.
proof fn lemma_type_line_unique(i: Seq<char>, a: Seq<char>, b: Seq<char>)
    requires
        is_type_literal(a),
        is_type_literal(b),
        starts_with(i, type_line_of(a)),
        starts_with(i, type_line_of(b)),
    ensures
        a == b,
{
    let pre = "Type"@ + ": "@;
    assert(type_line_of(a) =~= pre + (a + "\n"@));
    assert(type_line_of(b) =~= pre + (b + "\n"@));
    lemma_starts_with_split(i, pre, a + "\n"@);
    lemma_starts_with_split(i, pre, b + "\n"@);
    lemma_type_literal_no_nl(a);
    lemma_type_literal_no_nl(b);
    lemma_prefix_line_unique(i.skip(pre.len() as int), a, b);
}

/// Every type-name literal, and only what follows it, is recognized: for
/// each literal `t`, input made of the `Type` keyword, the separator, `t`,
/// the newline and any remainder parses to exactly `t` with exactly that
/// remainder.
pub proof fn lemma_type_line_build(t: Seq<char>, rest: Seq<char>)
    requires
        is_type_literal(t),
    ensures
        type_line_matches(type_line_of(t) + rest),
        type_line_value(type_line_of(t) + rest) == t,
        type_line_rest(type_line_of(t) + rest) == rest,
{
    let i = type_line_of(t) + rest;
    lemma_concat_parts(type_line_of(t), rest);
    assert(is_type_literal(t) && starts_with(i, type_line_of(t)));
    let v = type_line_value(i);
    assert(is_type_literal(v) && starts_with(i, type_line_of(v)));
    lemma_type_line_unique(i, v, t);
}

/// A matched `Type` line splits its input exactly: the line of its value
/// followed by its remainder reproduces the original input.
pub proof fn lemma_type_line_parts(i: Seq<char>)
    requires
        type_line_matches(i),
    ensures
        is_type_literal(type_line_value(i)),
        starts_with(i, type_line_of(type_line_value(i))),
        i == type_line_of(type_line_value(i)) + type_line_rest(i),
{
    let t = choose|t: Seq<char>| is_type_literal(t) && starts_with(i, type_line_of(t));
    let v = type_line_value(i);
    assert(is_type_literal(v) && starts_with(i, type_line_of(v)));
    lemma_starts_with_index(i, type_line_of(v));
    assert(i =~= type_line_of(v) + i.skip(type_line_of(v).len() as int));
}

/// A `Type` line carrying anything other than one of the seven literals is
/// rejected: the value position admits no other newline-free text.
pub proof fn lemma_type_line_rejects(t: Seq<char>, rest: Seq<char>)
    requires
        !t.contains('\n'),
        !is_type_literal(t),
    ensures
        !type_line_matches("Type"@ + ": "@ + t + "\n"@ + rest),
{
    let i = "Type"@ + ": "@ + t + "\n"@ + rest;
    let pre = "Type"@ + ": "@;
    if type_line_matches(i) {
        let a = choose|a: Seq<char>| is_type_literal(a) && starts_with(i, type_line_of(a));
        assert(type_line_of(a) =~= pre + (a + "\n"@));
        lemma_starts_with_split(i, pre, a + "\n"@);
        assert(i =~= pre + (t + "\n"@ + rest));
        lemma_concat_parts(pre, t + "\n"@ + rest);
        let u = i.skip(pre.len() as int);
        assert(u =~= (t + "\n"@) + rest);
        lemma_concat_parts(t + "\n"@, rest);
        assert(starts_with(u, t + "\n"@));
        lemma_type_literal_no_nl(a);
        lemma_prefix_line_unique(u, a, t);
    }
}

/// Parses a complete `Type` field line: the keyword, the `": "` separator,
/// one of the seven type-name literals, and the line's newline, in that
/// order and all-or-nothing. The literal set is closed: any other value
/// fails the field.
pub fn line_parser_type<'a>(i: &'a str) -> (r: ParseResult<'a, (&'a str, &'a str)>)
    ensures
        r is Ok <==> type_line_matches(i@),
        r matches Ok((rest, p)) ==> {
            &&& p.0@ == "Type"@
            &&& is_type_literal(p.1@)
            &&& p.1@ == type_line_value(i@)
            &&& rest@ == type_line_rest(i@)
            &&& i@ == "Type"@ + ": "@ + p.1@ + "\n"@ + rest@
        },
        r matches Err(e) ==> {
            &&& (e == ParseError::TokenMismatch || e == ParseError::NoAlternativeMatched)
            &&& (e == ParseError::NoAlternativeMatched <==> starts_with(i@, "Type"@ + ": "@)
                && !type_value_at(i@.skip(("Type"@ + ": "@).len() as int)))
        },
{
    let ghost pre = "Type"@ + ": "@;
    let (i1, name) = match type_parser(i) {
        Ok(p) => p,
        Err(e) => {
            proof {
                lemma_starts_with_split(i@, "Type"@, ": "@);
                if type_line_matches(i@) {
                    let a = choose|a: Seq<char>|
                        is_type_literal(a) && starts_with(i@, type_line_of(a));
                    assert(type_line_of(a) =~= "Type"@ + (": "@ + (a + "\n"@)));
                    lemma_starts_with_split(i@, "Type"@, ": "@ + (a + "\n"@));
                }
            }
            return Err(e);
        },
    };
    let (i2, _sep) = match key_val_delimiter_parser(i1) {
        Ok(p) => p,
        Err(e) => {
            proof {
                lemma_starts_with_split(i@, "Type"@, ": "@);
                if type_line_matches(i@) {
                    let a = choose|a: Seq<char>|
                        is_type_literal(a) && starts_with(i@, type_line_of(a));
                    assert(type_line_of(a) =~= "Type"@ + (": "@ + (a + "\n"@)));
                    lemma_starts_with_split(i@, "Type"@, ": "@ + (a + "\n"@));
                    lemma_starts_with_split(i1@, ": "@, a + "\n"@);
                }
            }
            return Err(e);
        },
    };
    let (i3, val) = match value_type_literal(i2) {
        Ok(p) => p,
        Err(e) => {
            proof {
                lemma_starts_with_split(i@, "Type"@, ": "@);
                assert(starts_with(i@, pre));
                assert(i@.skip(pre.len() as int) =~= i2@);
                if type_line_matches(i@) {
                    let a = choose|a: Seq<char>|
                        is_type_literal(a) && starts_with(i@, type_line_of(a));
                    assert(type_line_of(a) =~= pre + (a + "\n"@));
                    lemma_starts_with_split(i@, pre, a + "\n"@);
                    lemma_starts_with_split(i2@, a, "\n"@);
                }
            }
            return Err(e);
        },
    };
    let (i4, _nl) = match line_delimiter_parser(i3) {
        Ok(p) => p,
        Err(e) => {
            proof {
                lemma_starts_with_split(i@, "Type"@, ": "@);
                assert(starts_with(i@, pre));
                assert(i@.skip(pre.len() as int) =~= i2@);
                lemma_concat_parts(val@, i3@);
                if type_line_matches(i@) {
                    let a = choose|a: Seq<char>|
                        is_type_literal(a) && starts_with(i@, type_line_of(a));
                    assert(type_line_of(a) =~= pre + (a + "\n"@));
                    lemma_starts_with_split(i@, pre, a + "\n"@);
                    lemma_starts_with_split(i2@, a, "\n"@);
                    lemma_type_literal_prefix_unique(i2@, a, val@);
                    assert(i2@.skip(val@.len() as int) =~= i3@);
                }
            }
            return Err(e);
        },
    };
    proof {
        assert(i@ =~= type_line_of(val@) + i4@);
        lemma_type_line_build(val@, i4@);
        assert(i@ == "Type"@ + ": "@ + val@ + "\n"@ + i4@);
    }
    Ok((i4, (name, val)))
}

/// Parses a complete `Template` field line: the keyword, the `": "`
/// separator, a raw value up to the line's newline, and the newline itself.
/// All-or-nothing: on any failure nothing is consumed and the caller keeps
/// its original input.
pub fn template_line_parser<'a>(i: &'a str) -> (r: ParseResult<'a, (&'a str, &'a str)>)
    ensures
        r is Ok <==> field_line_matches(i@, "Template"@),
        r matches Ok((rest, p)) ==> {
            &&& p.0@ == "Template"@
            &&& p.1@ == field_line_value(i@, "Template"@)
            &&& rest@ == field_line_rest(i@, "Template"@)
            &&& i@ == "Template"@ + ": "@ + p.1@ + "\n"@ + rest@
            &&& !p.1@.contains('\n')
        },
        r matches Err(e) ==> e == ParseError::TokenMismatch,
{
    let (i1, name) = match template_parser(i) {
        Ok(p) => p,
        Err(e) => {
            proof {
                lemma_starts_with_split(i@, "Template"@, ": "@);
                lemma_field_line_no_sep(i@, "Template"@);
            }
            return Err(e);
        },
    };
    let (i2, _sep) = match key_val_delimiter_parser(i1) {
        Ok(p) => p,
        Err(e) => {
            proof {
                lemma_starts_with_split(i@, "Template"@, ": "@);
                lemma_field_line_no_sep(i@, "Template"@);
            }
            return Err(e);
        },
    };
    let (i3, val) = match keyval_parser(i2) {
        Ok(p) => p,
        Err(_) => {
            proof {
                assert(false);
            }
            return Err(ParseError::TokenMismatch);
        },
    };
    let (i4, _nl) = match line_delimiter_parser(i3) {
        Ok(p) => p,
        Err(e) => {
            proof {
                reveal_strlit("\n");
                if i3@.len() > 0 {
                    assert(i3@.subrange(0, 1) =~= "\n"@);
                }
                assert(i2@ =~= val@);
                lemma_starts_with_split(i@, "Template"@, ": "@);
                assert(field_line_body(i@, "Template"@) =~= i2@);
                lemma_field_line_no_nl(i@, "Template"@, i2@);
            }
            return Err(e);
        },
    };
    proof {
        assert(i@ =~= "Template"@ + ": "@ + val@ + "\n"@ + i4@);
        lemma_field_line_build("Template"@, val@, i4@);
    }
    Ok((i4, (name, val)))
}

/// Attempts a complete `Default` field line. The `Default` field is
/// optional at the grammar level: when the line does not match from the
/// current position, the failure is absorbed and the parser succeeds with
/// "no default present", handing the input back completely unchanged.
pub fn default_line_parser<'a>(i: &'a str) -> (r: ParseResult<
    'a,
    Option<(&'a str, &'a str, &'a str, &'a str)>,
>)
    ensures
        r is Ok,
        r matches Ok((rest, m)) ==> (match m {
            Some(p) => {
                &&& field_line_matches(i@, "Default"@)
                &&& p.0@ == "Default"@
                &&& p.1@ == ": "@
                &&& p.2@ == field_line_value(i@, "Default"@)
                &&& p.3@ == "\n"@
                &&& rest@ == field_line_rest(i@, "Default"@)
                &&& i@ == "Default"@ + ": "@ + p.2@ + "\n"@ + rest@
                &&& !p.2@.contains('\n')
            },
            None => !field_line_matches(i@, "Default"@) && rest@ == i@,
        }),
{
    let (i1, name) = match parser_default_key(i) {
        Ok(p) => p,
        Err(_) => {
            proof {
                lemma_starts_with_split(i@, "Default"@, ": "@);
                lemma_field_line_no_sep(i@, "Default"@);
            }
            return Ok((i, None));
        },
    };
    let (i2, sep) = match key_val_delimiter_parser(i1) {
        Ok(p) => p,
        Err(_) => {
            proof {
                lemma_starts_with_split(i@, "Default"@, ": "@);
                lemma_field_line_no_sep(i@, "Default"@);
            }
            return Ok((i, None));
        },
    };
    let (i3, val) = match keyval_parser(i2) {
        Ok(p) => p,
        Err(_) => {
            proof {
                assert(false);
            }
            return Ok((i, None));
        },
    };
    let (i4, nl) = match line_delimiter_parser(i3) {
        Ok(p) => p,
        Err(_) => {
            proof {
                reveal_strlit("\n");
                if i3@.len() > 0 {
                    assert(i3@.subrange(0, 1) =~= "\n"@);
                }
                assert(i2@ =~= val@);
                lemma_starts_with_split(i@, "Default"@, ": "@);
                assert(field_line_body(i@, "Default"@) =~= i2@);
                lemma_field_line_no_nl(i@, "Default"@, i2@);
            }
            return Ok((i, None));
        },
    };
    proof {
        assert(i@ =~= "Default"@ + ": "@ + val@ + "\n"@ + i4@);
        lemma_field_line_build("Default"@, val@, i4@);
    }
    Ok((i4, Some((name, sep, val, nl))))
}


/// The closed classification of what kind of answer a template expects.
/// `Freeform` is the kind written `string` in template files.
#[derive(Clone, Copy, Debug, PartialEq, Eq, Structural)]
pub enum ValueType {
    Select,
    Multiselect,
    Freeform,
    Boolean,
    Note,
    Text,
    Password,
}

impl ValueType {
    /// The type-name literal that denotes this kind in a template file.
    pub open spec fn lit(self) -> Seq<char> {
        match self {
            ValueType::Select => "select"@,
            ValueType::Multiselect => "multiselect"@,
            ValueType::Freeform => "string"@,
            ValueType::Boolean => "boolean"@,
            ValueType::Note => "note"@,
            ValueType::Text => "text"@,
            ValueType::Password => "password"@,
        }
    }

    /// Writes this kind as its type-name literal.
    pub fn as_literal(self) -> (r: &'static str)
        ensures
            r@ == self.lit(),
    {
        match self {
            ValueType::Select => "select",
            ValueType::Multiselect => "multiselect",
            ValueType::Freeform => "string",
            ValueType::Boolean => "boolean",
            ValueType::Note => "note",
            ValueType::Text => "text",
            ValueType::Password => "password",
        }
    }

    /// Reads a kind from a whole string: exactly the seven type-name
    /// literals are accepted, case-sensitively.
    pub fn from_literal(v: &str) -> (r: Option<ValueType>)
        ensures
            r matches Some(t) ==> v@ == t.lit(),
            r is None ==> !is_type_literal(v@),
    {
        if str_eq(v, "select") {
            Some(ValueType::Select)
        } else if str_eq(v, "multiselect") {
            Some(ValueType::Multiselect)
        } else if str_eq(v, "string") {
            Some(ValueType::Freeform)
        } else if str_eq(v, "boolean") {
            Some(ValueType::Boolean)
        } else if str_eq(v, "note") {
            Some(ValueType::Note)
        } else if str_eq(v, "text") {
            Some(ValueType::Text)
        } else if str_eq(v, "password") {
            Some(ValueType::Password)
        } else {
            None
        }
    }
}

/// One parsed template stanza. The required fields are fields of the
/// struct itself and the optional one an `Option`, so a value of this type
/// is well-formed by construction: a `Template` name and a closed-set
/// `Type` are always present, a `Default` may be absent. Values are
/// immutable once parsed.
#[derive(Debug)]
pub struct TemplateStanza {
    /// The raw value of the `Template` line: the template's name.
    pub template: String,
    /// The kind named on the `Type` line.
    pub vtype: ValueType,
    /// The raw value of the `Default` line, when one was present.
    pub default: Option<String>,
}

/// True when `i` begins with a well-formed stanza head: a `Template` line
/// followed by a `Type` line. (The optional `Default` line never fails, so
/// it does not constrain what matches.)
pub open spec fn stanza_matches(i: Seq<char>) -> bool {
    &&& field_line_matches(i, "Template"@)
    &&& type_line_matches(field_line_rest(i, "Template"@))
}

/// Assembles one template stanza: a `Template` line, then a `Type` line,
/// then an optional `Default` line, in that fixed order with no
/// re-ordering or backtracking across fields. A failure of either
/// mandatory field fails the whole stanza and reports it as a missing
/// required field; the caller's input position is untouched.
pub fn parse_stanza<'a>(i: &'a str) -> (r: Result<(&'a str, TemplateStanza), ParseError>)
    ensures
        r is Ok <==> stanza_matches(i@),
        r matches Ok((rest, st)) ==> ({
            let r1 = field_line_rest(i@, "Template"@);
            let r2 = type_line_rest(r1);
            &&& st.template@ == field_line_value(i@, "Template"@)
            &&& st.vtype.lit() == type_line_value(r1)
            &&& (match st.default {
                Some(d) => {
                    &&& field_line_matches(r2, "Default"@)
                    &&& d@ == field_line_value(r2, "Default"@)
                    &&& rest@ == field_line_rest(r2, "Default"@)
                },
                None => !field_line_matches(r2, "Default"@) && rest@ == r2,
            })
        }),
        r matches Err(e) ==> e == ParseError::MissingRequiredField,
{
    let (rest1, tpl) = match template_line_parser(i) {
        Ok(p) => p,
        Err(_) => {
            return Err(ParseError::MissingRequiredField);
        },
    };
    let (rest2, ty) = match line_parser_type(rest1) {
        Ok(p) => p,
        Err(_) => {
            return Err(ParseError::MissingRequiredField);
        },
    };
    let vtype = match ValueType::from_literal(ty.1) {
        Some(t) => t,
        None => {
            proof {
                assert(false);
            }
            return Err(ParseError::MissingRequiredField);
        },
    };
    let (rest3, dft) = match default_line_parser(rest2) {
        Ok(p) => p,
        Err(_) => {
            proof {
                assert(false);
            }
            return Err(ParseError::MissingRequiredField);
        },
    };
    let default = match dft {
        Some(p) => Some(String::from_str(p.2)),
        None => None,
    };
    let st = TemplateStanza { template: String::from_str(tpl.1), vtype, default };
    Ok((rest3, st))
}

} // verus!
