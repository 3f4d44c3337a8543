use debconf_templates::get_test_data;
use debconf_templates::stanza::default_line_parser;
use debconf_templates::stanza::line_parser_type;
use debconf_templates::stanza::parse_stanza;
use debconf_templates::stanza::template_line_parser;
use debconf_templates::stanza::ValueType;
use debconf_templates::tokens::key_val_delimiter_parser;
use debconf_templates::tokens::keyval_parser;
use debconf_templates::tokens::line_delimiter_parser;
use debconf_templates::tokens::parse_str;
use debconf_templates::tokens::parser_default_key;
use debconf_templates::tokens::template_parser;
use debconf_templates::tokens::type_parser;
use debconf_templates::tokens::value_type_literal;
use debconf_templates::tokens::ParseError;

#[test]
fn test_template_parser() {
    assert_eq!(
        template_parser("Template: man-db/auto-update"),
        Ok((": man-db/auto-update", "Template"))
    );
}

#[test]
fn test_keyval_parser() {
    assert_eq!(keyval_parser("boolean\nsss"), Ok(("\nsss", "boolean")));
}

#[test]
fn test_keyval_parser_with_hyphon() {
    assert_eq!(
        keyval_parser("man-db/auto-update\nsss"),
        Ok(("\nsss", "man-db/auto-update"))
    );
}

#[test]
fn test_type_parser() {
    assert_eq!(type_parser("Type: boolean"), Ok((": boolean", "Type")));
}

#[test]
fn test_template_line_parser() {
    assert_eq!(
        template_line_parser("Template: man-db/auto-update\n"),
        Ok(("", ("Template", "man-db/auto-update")))
    );
}

#[test]
fn test_line_parser_type_select() {
    assert_eq!(
        line_parser_type("Type: select\n"),
        Ok(("", ("Type", "select")))
    );
}

#[test]
fn test_line_parser_type_multiselect() {
    assert_eq!(
        line_parser_type("Type: multiselect\n"),
        Ok(("", ("Type", "multiselect")))
    );
}

#[test]
fn test_line_parser_type_string() {
    assert_eq!(
        line_parser_type("Type: string\n"),
        Ok(("", ("Type", "string")))
    );
}

#[test]
fn test_line_parser_type_boolean() {
    assert_eq!(
        line_parser_type("Type: boolean\n"),
        Ok(("", ("Type", "boolean")))
    );
}

#[test]
fn test_line_parser_type_note() {
    assert_eq!(line_parser_type("Type: note\n"), Ok(("", ("Type", "note"))));
}

#[test]
fn test_line_parser_type_text() {
    assert_eq!(line_parser_type("Type: text\n"), Ok(("", ("Type", "text"))));
}

#[test]
fn test_line_parser_type_password() {
    assert_eq!(
        line_parser_type("Type: password\n"),
        Ok(("", ("Type", "password")))
    );
}

#[test]
fn test_line_parser_default_line_parser_nome() {
    assert_eq!(
        default_line_parser("Type: password\n"),
        Ok(("Type: password\n", None))
    );
}

#[test]
fn test_line_parser_default_line_parser_some() {
    assert_eq!(
        default_line_parser("Default: true\n"),
        Ok(("", Some(("Default", ": ", "true", "\n"))))
    );
}

#[test]
fn test_type_line_keeps_remainder() {
    assert_eq!(
        line_parser_type("Type: select\nDefault: a\n"),
        Ok(("Default: a\n", ("Type", "select")))
    );
}

#[test]
fn test_type_line_rejects_unknown_literal() {
    assert_eq!(
        line_parser_type("Type: enum\n"),
        Err(ParseError::NoAlternativeMatched)
    );
}

#[test]
fn test_type_line_rejects_literal_prefix_only() {
    // "selectx" begins with a literal but is not followed by the newline.
    assert!(line_parser_type("Type: selectx\n").is_err());
}

#[test]
fn test_type_line_rejects_missing_separator_space() {
    assert_eq!(
        line_parser_type("Type:boolean\n"),
        Err(ParseError::TokenMismatch)
    );
}

#[test]
fn test_type_line_rejects_missing_newline() {
    assert_eq!(
        line_parser_type("Type: boolean"),
        Err(ParseError::TokenMismatch)
    );
}

#[test]
fn test_template_line_roundtrip() {
    let input = "Template: man-db/auto-update\n";
    let (rest, (name, val)) = template_line_parser(input).unwrap();
    let rebuilt = format!("{}: {}\n{}", name, val, rest);
    assert_eq!(rebuilt, input);
}

#[test]
fn test_sequencing_template_then_type() {
    let input = "Template: man-db/auto-update\nType: boolean\n";
    let (rest, tpl) = template_line_parser(input).unwrap();
    assert_eq!(tpl, ("Template", "man-db/auto-update"));
    let (rest, ty) = line_parser_type(rest).unwrap();
    assert_eq!(ty, ("Type", "boolean"));
    assert_eq!(rest, "");
}

#[test]
fn test_template_value_containing_password_is_raw_text() {
    assert_eq!(
        template_line_parser("Template: password\n"),
        Ok(("", ("Template", "password")))
    );
    assert_eq!(
        template_line_parser("Template: my-password-box\nType: string\n"),
        Ok(("Type: string\n", ("Template", "my-password-box")))
    );
}

#[test]
fn test_default_value_containing_type_literal_is_raw_text() {
    assert_eq!(
        default_line_parser("Default: select\n"),
        Ok(("", Some(("Default", ": ", "select", "\n"))))
    );
}

#[test]
fn test_default_absent_leaves_input_unchanged() {
    let input = "Template: a\n";
    assert_eq!(default_line_parser(input), Ok((input, None)));
    let empty = "";
    assert_eq!(default_line_parser(empty), Ok((empty, None)));
}

#[test]
fn test_default_requires_separator_and_newline() {
    let no_space = "Default:true\n";
    assert_eq!(default_line_parser(no_space), Ok((no_space, None)));
    let no_newline = "Default: true";
    assert_eq!(default_line_parser(no_newline), Ok((no_newline, None)));
}

#[test]
fn test_key_val_delimiter_parser() {
    assert_eq!(key_val_delimiter_parser(": x"), Ok(("x", ": ")));
    assert_eq!(key_val_delimiter_parser(":x"), Err(ParseError::TokenMismatch));
    assert_eq!(key_val_delimiter_parser(""), Err(ParseError::TokenMismatch));
}

#[test]
fn test_line_delimiter_parser() {
    assert_eq!(line_delimiter_parser("\nrest"), Ok(("rest", "\n")));
    assert_eq!(line_delimiter_parser("rest"), Err(ParseError::TokenMismatch));
}

#[test]
fn test_field_keywords_are_case_sensitive_and_exact() {
    assert_eq!(template_parser("template: x"), Err(ParseError::TokenMismatch));
    assert_eq!(template_parser("Tem"), Err(ParseError::TokenMismatch));
    assert_eq!(parser_default_key("Default: x"), Ok((": x", "Default")));
    assert_eq!(parser_default_key("default"), Err(ParseError::TokenMismatch));
}

#[test]
fn test_keyval_parser_empty_line() {
    assert_eq!(keyval_parser(""), Ok(("", "")));
    assert_eq!(keyval_parser("\nrest"), Ok(("\nrest", "")));
}

#[test]
fn test_value_type_literal_alternatives() {
    assert_eq!(value_type_literal("note\n"), Ok(("\n", "note")));
    assert_eq!(value_type_literal("selectx"), Ok(("x", "select")));
    assert_eq!(
        value_type_literal("enum\n"),
        Err(ParseError::NoAlternativeMatched)
    );
    assert_eq!(
        value_type_literal(""),
        Err(ParseError::NoAlternativeMatched)
    );
}

#[test]
fn test_parse_str_plain_word() {
    assert_eq!(parse_str("abc def"), Ok((" def", "abc")));
    assert_eq!(parse_str("a1B2"), Ok(("", "a1B2")));
}

#[test]
fn test_parse_str_keeps_escapes_undecoded() {
    assert_eq!(parse_str("ab\\\"cd!"), Ok(("!", "ab\\\"cd")));
    assert_eq!(parse_str("ab\\nc"), Ok(("", "ab\\nc")));
    assert_eq!(parse_str("x\\\\y"), Ok(("", "x\\\\y")));
}

#[test]
fn test_parse_str_stops_at_invalid_escape() {
    assert_eq!(parse_str("a\\zx"), Ok(("\\zx", "a")));
    assert_eq!(parse_str("ab\\"), Ok(("\\", "ab")));
}

#[test]
fn test_parse_str_rejects_empty_match() {
    assert_eq!(parse_str(""), Err(ParseError::TokenMismatch));
    assert_eq!(parse_str("!x"), Err(ParseError::TokenMismatch));
    assert_eq!(parse_str("\\zab"), Err(ParseError::TokenMismatch));
}

#[test]
fn test_value_type_from_literal() {
    assert_eq!(ValueType::from_literal("select"), Some(ValueType::Select));
    assert_eq!(
        ValueType::from_literal("multiselect"),
        Some(ValueType::Multiselect)
    );
    assert_eq!(ValueType::from_literal("string"), Some(ValueType::Freeform));
    assert_eq!(ValueType::from_literal("boolean"), Some(ValueType::Boolean));
    assert_eq!(ValueType::from_literal("note"), Some(ValueType::Note));
    assert_eq!(ValueType::from_literal("text"), Some(ValueType::Text));
    assert_eq!(
        ValueType::from_literal("password"),
        Some(ValueType::Password)
    );
    assert_eq!(ValueType::from_literal("enum"), None);
    assert_eq!(ValueType::from_literal("Select"), None);
    assert_eq!(ValueType::from_literal("select "), None);
    assert_eq!(ValueType::from_literal(""), None);
}

#[test]
fn test_value_type_literal_roundtrip() {
    let kinds = [
        ValueType::Select,
        ValueType::Multiselect,
        ValueType::Freeform,
        ValueType::Boolean,
        ValueType::Note,
        ValueType::Text,
        ValueType::Password,
    ];
    for k in kinds {
        assert_eq!(ValueType::from_literal(k.as_literal()), Some(k));
    }
}

#[test]
fn test_parse_stanza_on_sample_data() {
    let data = get_test_data();
    let (rest, st) = parse_stanza(&data).unwrap();
    assert_eq!(st.template, "man-db/auto-update");
    assert_eq!(st.vtype, ValueType::Boolean);
    assert_eq!(st.default.as_deref(), Some("true"));
    assert_eq!(rest, "Description: for internal use; can be preseeded\n");
}

#[test]
fn test_parse_stanza_without_default() {
    let (rest, st) = parse_stanza("Template: a/b\nType: note\nTemplate: c\n").unwrap();
    assert_eq!(st.template, "a/b");
    assert_eq!(st.vtype, ValueType::Note);
    assert_eq!(st.default, None);
    assert_eq!(rest, "Template: c\n");
}

#[test]
fn test_parse_stanza_requires_field_order() {
    assert!(matches!(
        parse_stanza("Type: boolean\nTemplate: a\n"),
        Err(ParseError::MissingRequiredField)
    ));
}

#[test]
fn test_parse_stanza_requires_known_type() {
    assert!(matches!(
        parse_stanza("Template: a\nType: enum\n"),
        Err(ParseError::MissingRequiredField)
    ));
}

#[test]
fn test_get_test_data() {
    assert_eq!(
        get_test_data(),
        "Template: man-db/auto-update\nType: boolean\nDefault: true\nDescription: for internal use; can be preseeded\n"
    );
}
