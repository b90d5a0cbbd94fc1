use mustache_json5_fmt::{format_string, format_string_with_config, is_formatted, Config, FmtError,
    MustacheJson5Formatter};

#[test]
fn test_format_string() {
    let input = r#"{"name":"test","value":123}"#;
    let result = format_string(input);
    assert!(result.is_ok());

    let formatted = result.unwrap();
    assert!(formatted.contains("  \"name\": \"test\""));
    assert!(formatted.contains("  \"value\": 123"));
}

#[test]
fn test_format_string_with_config() {
    let mut config = Config::default();
    config.indent_size = 4;

    let input = r#"{"name":"test"}"#;
    let result = format_string_with_config(input, config);
    assert!(result.is_ok());
}

#[test]
fn test_is_formatted() {
    let config = Config::default();

    let properly_formatted = "{\n  \"name\": \"test\"\n}";
    assert!(is_formatted(properly_formatted, &config).unwrap());

    let poorly_formatted = r#"{"name":"test"}"#;
    assert!(!is_formatted(poorly_formatted, &config).unwrap());
}

#[test]
fn lib_test_mustache_formatting() {
    let input = r#"{{#users}}{{name}}{{/users}}"#;
    let result = format_string(input);
    assert!(result.is_ok());

    let formatted = result.unwrap();
    assert!(formatted.contains("{{#users}}"));
    assert!(formatted.contains("{{/users}}"));
}

#[test]
fn test_mixed_content() {
    let input = r#"{"users":[{{#each users}}"{{name}}"{{#unless @last}},{{/unless}}{{/each}}]}"#;
    let result = format_string(input);
    assert!(result.is_ok());

    let formatted = result.unwrap();
    assert!(formatted.contains("\"users\": ["));
    assert!(formatted.contains("{{#each users}}"));
}

#[test]
fn test_error_handling() {
    let invalid_input = r#"{"name": }"#; // not a valid document
    let result = format_string(invalid_input);
    assert!(result.is_err());
}

#[test]
fn test_formatter_creation() {
    let config = Config::default();
    let formatter = MustacheJson5Formatter::new(config);
    assert!(formatter.is_ok());
}

#[test]
fn test_simple_json5_formatting() {
    let config = Config::default();
    let mut formatter = MustacheJson5Formatter::new(config).unwrap();

    let input = r#"{"name":"test","value":123}"#;
    let result = formatter.format(input);
    assert!(result.is_ok());
}

#[test]
fn test_mustache_section_formatting() {
    let config = Config::default();
    let mut formatter = MustacheJson5Formatter::new(config).unwrap();

    let input = "{{#users}}\n{{name}}\n{{/users}}";
    let result = formatter.format(input);
    assert!(result.is_ok());
}

#[test]
fn test_formatter_rejects_invalid_config() {
    let mut config = Config::default();
    config.indent_size = 0;
    let formatter = MustacheJson5Formatter::new(config);
    assert!(formatter.is_err());
}

#[test]
fn test_parse_error_variant() {
    let result = format_string(r#"{"name": }"#);
    assert_eq!(result, Err(FmtError::Parse));
}

#[test]
fn test_format_string_with_invalid_config_fails() {
    let mut config = Config::default();
    config.tab_width = 0;
    let result = format_string_with_config(r#"{"a":1}"#, config);
    assert_eq!(result, Err(FmtError::InvalidTabWidth));
}
