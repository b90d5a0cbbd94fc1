use mustache_json5_fmt::{Config, FmtError};

#[test]
fn test_default_config() {
    let config = Config::default();
    assert_eq!(config.indent_size, 2);
    assert!(!config.use_tabs);
    assert_eq!(config.indent_string(), "  ");
}

#[test]
fn test_tab_config() {
    let mut config = Config::default();
    config.use_tabs = true;
    assert_eq!(config.indent_string(), "\t");
}

#[test]
fn test_config_validation() {
    let mut config = Config::default();
    config.validate().unwrap();

    config.indent_size = 0;
    assert!(config.validate().is_err());
}

#[test]
fn test_invalid_indent_size_error() {
    let mut config = Config::default();
    config.indent_size = 0;
    assert_eq!(config.validate(), Err(FmtError::InvalidIndentSize));
    assert_eq!(
        FmtError::InvalidIndentSize.message(),
        "indent_size must be greater than 0"
    );
}

#[test]
fn test_invalid_tab_width_error() {
    let mut config = Config::default();
    config.tab_width = 0;
    assert_eq!(config.validate(), Err(FmtError::InvalidTabWidth));
    assert_eq!(
        FmtError::InvalidTabWidth.message(),
        "tab_width must be greater than 0"
    );
}

#[test]
fn test_indent_string_four_spaces() {
    let mut config = Config::default();
    config.indent_size = 4;
    assert_eq!(config.indent_string(), "    ");
}

#[test]
fn test_defaults_of_option_types() {
    let config = Config::default();
    assert_eq!(config.tab_width, 2);
    assert_eq!(config.max_line_length, 0);
    assert!(config.preserve_empty_lines);
    assert!(!config.mustache_spacing.after_open);
    assert!(!config.mustache_spacing.before_close);
    assert!(!config.mustache_spacing.around_operators);
    assert!(config.comment_handling.preserve_formatting);
    assert!(!config.comment_handling.normalize_spacing);
}
