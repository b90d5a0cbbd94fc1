use mustache_json5_fmt::{Config, MustacheJson5Formatter};
use std::time::Instant;

fn check_cases(cases: &[(&str, &str, &str)]) {
    let config = Config::default();
    let mut formatter = MustacheJson5Formatter::new(config).expect("Failed to create formatter");
    for (name, input, expected) in cases {
        let result = formatter
            .format(input)
            .unwrap_or_else(|_| panic!("Failed to format test case: {}", name));
        assert_eq!(
            result.trim(),
            expected.trim(),
            "Test case '{}' failed",
            name
        );
    }
}

#[test]
fn test_basic_json5_formatting() {
    check_cases(&[
        (
            "simple_object",
            r#"{"name":"test","value":123}"#,
            "{\n  \"name\": \"test\",\n  \"value\": 123\n}",
        ),
        (
            "nested_object",
            r#"{"user":{"name":"John","details":{"age":30,"city":"NYC"}}}"#,
            "{\n  \"user\": {\n    \"name\": \"John\",\n    \"details\": {\n      \"age\": 30,\n      \"city\": \"NYC\"\n    }\n  }\n}",
        ),
        ("simple_array", "[1,2,3,4,5]", "[1, 2, 3, 4, 5]"),
        (
            "long_array",
            "[1,2,3,4,5,6,7,8,9,10]",
            "[\n  1,\n  2,\n  3,\n  4,\n  5,\n  6,\n  7,\n  8,\n  9,\n  10\n]",
        ),
    ]);
}

#[test]
fn integration_test_mustache_formatting() {
    check_cases(&[
        ("simple_interpolation", "{{name}}", "{{name}}"),
        (
            "section_basic",
            "{{#users}}\n{{name}}\n{{/users}}",
            "{{#users}}\n  {{name}}\n{{/users}}",
        ),
        (
            "nested_sections",
            "{{#users}}\n{{#active}}\n{{name}} is active\n{{/active}}\n{{/users}}",
            "{{#users}}\n  {{#active}}\n    {{name}} is active\n  {{/active}}\n{{/users}}",
        ),
        (
            "inverted_section",
            "{{^users}}\nNo users found\n{{/users}}",
            "{{^users}}\n  No users found\n{{/users}}",
        ),
    ]);
}

#[test]
fn test_comment_preservation() {
    check_cases(&[
        (
            "json5_line_comment",
            "{\n  \"name\": \"test\", // This is a comment\n  \"value\": 123\n}",
            "{\n  \"name\": \"test\", // This is a comment\n  \"value\": 123\n}",
        ),
        (
            "json5_block_comment",
            "{\n  /* This is a\n     block comment */\n  \"name\": \"test\"\n}",
            "{\n  /* This is a\n     block comment */\n  \"name\": \"test\"\n}",
        ),
        (
            "mustache_comment",
            "{{! This is a mustache comment }}\n{\n  \"name\": \"{{name}}\"\n}",
            "{{! This is a mustache comment }}\n{\n  \"name\": \"{{name}}\"\n}",
        ),
    ]);
}

#[test]
fn test_configuration_options() {
    // Test with tabs
    let mut config = Config::default();
    config.use_tabs = true;
    let mut formatter = MustacheJson5Formatter::new(config).expect("Failed to create formatter");

    let input = r#"{"name":"test","value":123}"#;
    let result = formatter.format(input).expect("Failed to format with tabs");
    assert!(result.contains('\t'), "Expected tabs in output");

    // Test with different indent size
    let mut config = Config::default();
    config.indent_size = 4;
    let mut formatter = MustacheJson5Formatter::new(config).expect("Failed to create formatter");

    let result = formatter
        .format(input)
        .expect("Failed to format with 4-space indent");
    let lines: Vec<&str> = result.lines().collect();
    if lines.len() > 1 {
        // Check that indented lines use 4 spaces
        for line in lines.iter().skip(1) {
            if line.trim() != "" && line.starts_with(' ') {
                let leading_spaces = line.len() - line.trim_start().len();
                assert!(
                    leading_spaces % 4 == 0,
                    "Expected multiple of 4 spaces, got {}",
                    leading_spaces
                );
            }
        }
    }
}

#[test]
fn test_performance_large_file() {
    let config = Config::default();
    let mut formatter = MustacheJson5Formatter::new(config).expect("Failed to create formatter");

    // Generate a large test file
    let mut large_content = String::new();
    large_content.push_str("{\n");
    large_content.push_str("  \"users\": [\n");

    for i in 0..1000 {
        large_content.push_str(&format!(
            "    {{{{#users}}}}\n    {{\n      \"id\": {i},\n      \"name\": \"{{{{name}}}}\",\n      \"email\": \"{{{{email}}}}\"\n    }}{{{{#unless @last}}}},{{{{/unless}}}}\n    {{{{/users}}}}"
        ));
        if i < 999 {
            large_content.push_str(",\n");
        }
    }

    large_content.push_str("\n  ]\n}");

    let start = Instant::now();
    let result = formatter.format(&large_content);
    let duration = start.elapsed();

    assert!(result.is_ok(), "Failed to format large file");
    assert!(
        duration.as_millis() < 1000,
        "Formatting took too long: {:?}",
        duration
    );
}
