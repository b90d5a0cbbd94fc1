use mustache_json5_fmt::{format_string, format_string_with_config, Config, MustacheIndentStyle,
    QuoteStyle, TrailingCommaStyle};

#[test]
fn test_empty_object_and_array() {
    assert_eq!(format_string("{}").unwrap(), "{}");
    assert_eq!(format_string("[]").unwrap(), "[]");
}

#[test]
fn test_single_member_stays_inline() {
    assert_eq!(
        format_string(r#"{"name":"test"}"#).unwrap(),
        r#"{"name": "test"}"#
    );
}

#[test]
fn test_two_members_expand() {
    assert_eq!(
        format_string(r#"{"name":"test","value":123}"#).unwrap(),
        "{\n  \"name\": \"test\",\n  \"value\": 123\n}"
    );
}

#[test]
fn test_array_five_elements_inline() {
    assert_eq!(format_string("[1,2,3,4,5]").unwrap(), "[1, 2, 3, 4, 5]");
}

#[test]
fn test_array_past_threshold_expands() {
    assert_eq!(
        format_string("[1,2,3,4,5,6]").unwrap(),
        "[\n  1,\n  2,\n  3,\n  4,\n  5,\n  6\n]"
    );
}

#[test]
fn test_section_block_indent() {
    assert_eq!(
        format_string("{{#users}}\n{{name}}\n{{/users}}").unwrap(),
        "{{#users}}\n  {{name}}\n{{/users}}"
    );
}

#[test]
fn test_line_comment_round_trip() {
    assert_eq!(format_string("// hello").unwrap(), "// hello");
    let formatted = "{\n  \"name\": \"test\", // note\n  \"value\": 1\n}";
    assert_eq!(format_string(formatted).unwrap(), formatted);
}

#[test]
fn test_block_comment_round_trip() {
    let input = "/* a\n   b */";
    assert_eq!(format_string(input).unwrap(), input);
}

#[test]
fn test_comment_normalize_spacing() {
    let mut config = Config::default();
    config.comment_handling.normalize_spacing = true;
    assert_eq!(
        format_string_with_config("//    x", config).unwrap(),
        "// x"
    );
}

#[test]
fn test_malformed_fails_without_mustache() {
    assert!(format_string(r#"{"name": }"#).is_err());
}

#[test]
fn test_malformed_tolerated_with_mustache() {
    let input = "{{#a}}\nx\n{{/a}}\n{\"name\": }";
    let result = format_string(input).unwrap();
    assert_eq!(result, "{{#a}}\n  x\n{{/a}}\n{\"name\": }");
    assert!(result.contains("\"name\": "));
}

#[test]
fn test_unclosed_tag_fails() {
    assert!(format_string("{{#unclosed").is_err());
}

#[test]
fn test_unterminated_string_in_tag_context_fails() {
    // holds `{{` but no closing `}}`, so the parse error is fatal
    assert!(format_string(r#"{"name": "{{}"#).is_err());
}

#[test]
fn test_tabs_indentation() {
    let mut config = Config::default();
    config.use_tabs = true;
    assert_eq!(
        format_string_with_config(r#"{"name":"test","value":123}"#, config).unwrap(),
        "{\n\t\"name\": \"test\",\n\t\"value\": 123\n}"
    );
}

#[test]
fn test_tabs_never_spaces() {
    let mut config = Config::default();
    config.use_tabs = true;
    let out =
        format_string_with_config(r#"{"a":{"b":1,"c":2},"d":[1,2,3,4,5,6]}"#, config).unwrap();
    for line in out.lines() {
        let body = line.trim_start();
        let indent_len = line.len() - body.len();
        for ch in line[..indent_len].chars() {
            assert_eq!(ch, '\t');
        }
    }
    assert!(out.contains('\t'));
}

#[test]
fn test_quote_style_double() {
    let mut config = Config::default();
    config.quote_style = QuoteStyle::Double;
    assert_eq!(
        format_string_with_config("{'name':'test'}", config).unwrap(),
        r#"{"name": "test"}"#
    );
}

#[test]
fn test_quote_style_single() {
    let mut config = Config::default();
    config.quote_style = QuoteStyle::Single;
    assert_eq!(
        format_string_with_config(r#"{"name":"test"}"#, config).unwrap(),
        "{'name': 'test'}"
    );
}

#[test]
fn test_quote_style_preserve() {
    assert_eq!(
        format_string(r#"{'a':"b"}"#).unwrap(),
        r#"{'a': "b"}"#
    );
}

#[test]
fn test_quote_not_rewritten_when_escapes_present() {
    let mut config = Config::default();
    config.quote_style = QuoteStyle::Double;
    assert_eq!(
        format_string_with_config("{'it\\'s':1}", config).unwrap(),
        "{'it\\'s': 1}"
    );
}

#[test]
fn test_trailing_comma_always() {
    let mut config = Config::default();
    config.trailing_commas = TrailingCommaStyle::Always;
    assert_eq!(
        format_string_with_config(r#"{"a":1,"b":2}"#, config).unwrap(),
        "{\n  \"a\": 1,\n  \"b\": 2,\n}"
    );
}

#[test]
fn test_trailing_comma_never() {
    let mut config = Config::default();
    config.trailing_commas = TrailingCommaStyle::Never;
    assert_eq!(
        format_string_with_config(r#"{"a": 1,}"#, config).unwrap(),
        r#"{"a": 1}"#
    );
}

#[test]
fn test_trailing_comma_preserved() {
    assert_eq!(format_string(r#"{"a": 1,}"#).unwrap(), r#"{"a": 1,}"#);
}

#[test]
fn test_mustache_spacing_inside_delimiters() {
    let mut config = Config::default();
    config.mustache_spacing.after_open = true;
    config.mustache_spacing.before_close = true;
    assert_eq!(
        format_string_with_config("{{name}}", config).unwrap(),
        "{{ name }}"
    );
}

#[test]
fn test_mustache_spacing_around_operators() {
    let mut config = Config::default();
    config.mustache_spacing.around_operators = true;
    assert_eq!(
        format_string_with_config("{{#users}}{{/users}}", config).unwrap(),
        "{{ # users}}\n{{ / users}}"
    );
}

#[test]
fn test_minimal_indent_style() {
    let mut config = Config::default();
    config.mustache_indent_style = MustacheIndentStyle::Minimal;
    assert_eq!(
        format_string_with_config("{{#users}}\n{{name}}\n{{/users}}", config).unwrap(),
        "{{#users}}\n{{name}}\n{{/users}}"
    );
}

#[test]
fn test_blank_lines_capped_at_one() {
    assert_eq!(
        format_string("{{#a}}\nx\n\n\n\ny\n{{/a}}").unwrap(),
        "{{#a}}\n  x\n\n  y\n{{/a}}"
    );
}

#[test]
fn test_blank_lines_dropped_when_off() {
    let mut config = Config::default();
    config.preserve_empty_lines = false;
    assert_eq!(
        format_string_with_config("{{#a}}\nx\n\n\n\ny\n{{/a}}", config).unwrap(),
        "{{#a}}\n  x\n  y\n{{/a}}"
    );
}

#[test]
fn test_blank_only_body_collapses() {
    assert_eq!(
        format_string("{{#a}}\n\n\n{{/a}}").unwrap(),
        "{{#a}}\n{{/a}}"
    );
}

#[test]
fn test_unescaped_and_partial_tags() {
    assert_eq!(format_string("{{&raw}}").unwrap(), "{{&raw}}");
    assert_eq!(format_string("{{>header}}").unwrap(), "{{>header}}");
}

#[test]
fn test_unclosed_object_fails() {
    assert!(format_string(r#"{"a":1"#).is_err());
}

#[test]
fn test_unclosed_block_comment_fails() {
    assert!(format_string("/* unterminated").is_err());
}

#[test]
fn test_preserve_indent_style() {
    let mut config = Config::default();
    config.mustache_indent_style = MustacheIndentStyle::Preserve;
    assert_eq!(
        format_string_with_config("{{#users}}\n{{name}}\n{{/users}}", config).unwrap(),
        "{{#users}}\n{{name}}\n{{/users}}"
    );
}

#[test]
fn test_format_idempotent() {
    let inputs = vec![
        "{}",
        "[]",
        r#"{"name":"test"}"#,
        r#"{"name":"test","value":123}"#,
        "[1,2,3,4,5]",
        "[1,2,3,4,5,6]",
        "{{#users}}\n{{name}}\n{{/users}}",
        "{{#users}}{{name}}{{/users}}",
        "{{^users}}\nNo users found\n{{/users}}",
        "{{name}} is active",
        "// c\n{\"a\":1,\"b\":2}",
        "{{! note }}\n{{name}}",
        "   {\"name\":\"test\"}   ",
        "{{#users}}\n\n\n{{name}}\n\n\n{{/users}}",
        r#"{"users":[{{#each users}}"{{name}}"{{#unless @last}},{{/unless}}{{/each}}]}"#,
        "{\n  \"a\": 1, // c\n  \"b\": 2\n}",
        r#"{"user":{"name":"John","details":{"age":30,"city":"NYC"}}}"#,
        r#"[1,[2,3],{"a":1}]"#,
        r#"{"a": 1,}"#,
        "{{#a}}{{/a}}{\"name\": }",
        "/* a\n   b */",
        "{\n  /* two\n     lines */\n  \"name\": \"test\"\n}",
        "{\"k\": {{#a}}x{{/a}}}",
        "{{&raw}}\n{{>header}}",
        "[1, 2, // note\n 3]",
    ];
    for input in inputs {
        let first = format_string(input)
            .unwrap_or_else(|_| panic!("first pass failed for: {}", input));
        let second = format_string(&first)
            .unwrap_or_else(|_| panic!("second pass failed for: {}", input));
        assert_eq!(first, second, "not idempotent for: {}", input);
    }
}
