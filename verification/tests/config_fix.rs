use tablet_core::config_fix::{fix_empty_or_invalid_field, fix_enum_field, fix_global_config_text};

const LEVELS: [&str; 4] = ["debug", "info", "warn", "error"];

#[test]
fn enum_field_invalid_value_is_reset_keeping_indent() {
    let text = "[ui]\n  log_level = \"loud\"\nx = 1\n";
    assert_eq!(
        fix_enum_field(text, "log_level", &LEVELS, "debug"),
        Some("[ui]\n  log_level = \"debug\"\nx = 1".to_string())
    );
}

#[test]
fn enum_field_valid_or_unquoted_value_is_left_alone() {
    assert_eq!(fix_enum_field("log_level = \"warn\"\n", "log_level", &LEVELS, "debug"), None);
    assert_eq!(fix_enum_field("log_level = 3\n", "log_level", &LEVELS, "debug"), None);
    assert_eq!(fix_enum_field("other = \"loud\"\n", "log_level", &LEVELS, "debug"), None);
}

#[test]
fn empty_value_is_reset() {
    let r = fix_empty_or_invalid_field("picker_trigger_header = \"\"\n", "picker_trigger_header", &["single", "double"], "single");
    assert_eq!(r, Some("picker_trigger_header = \"single\"".to_string()));
    let r = fix_empty_or_invalid_field("picker_trigger_header = \"double\"\n", "picker_trigger_header", &["single", "double"], "single");
    assert_eq!(r, None);
}

#[test]
fn global_config_text_repairs_every_known_field() {
    let (t, fixed) = fix_global_config_text("project_sort = \"bogus\"\nencoding = \"utf-8\"\nline_ending = \"bad\"\n");
    assert!(fixed);
    assert_eq!(t, "project_sort = \"id\"\nencoding = \"utf-8\"\nline_ending = \"lf\"");
}

#[test]
fn global_config_text_without_problems_is_unchanged() {
    let text = "project_sort = \"name\"\nlog_level = \"info\"\n";
    let (t, fixed) = fix_global_config_text(text);
    assert!(!fixed);
    assert_eq!(t, text);
}

#[test]
fn valid_values_beyond_the_common_ones_stay() {
    let text = "log_level = \"trace\"\nencoding = \"utf-16le\"\nline_ending = \"cr\"\n";
    let (t, fixed) = fix_global_config_text(text);
    assert!(!fixed);
    assert_eq!(t, text);
    let (t, fixed) = fix_global_config_text("log_level = \"loud\"\n");
    assert!(fixed);
    assert_eq!(t, "log_level = \"debug\"");
}
