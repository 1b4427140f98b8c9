use redisearch_sql::sql_parser::error::{ErrorCategory, SqlError};
use redisearch_sql::sql_parser::parser::parse;

#[test]
fn test_error_category_display_syntax() {
    assert_eq!(ErrorCategory::Syntax.display_string(), "Syntax error");
}

#[test]
fn test_error_category_display_unsupported() {
    assert_eq!(ErrorCategory::Unsupported.display_string(), "Unsupported feature");
}

#[test]
fn test_error_category_display_translation() {
    assert_eq!(ErrorCategory::Translation.display_string(), "Translation error");
}

#[test]
fn test_sql_error_syntax() {
    let err = SqlError::syntax("Invalid syntax");
    assert_eq!(err.category, ErrorCategory::Syntax);
    assert_eq!(err.message, "Invalid syntax");
    assert!(err.position.is_none());
    assert!(err.suggestion.is_none());
}

#[test]
fn test_sql_error_unsupported() {
    let err = SqlError::unsupported("Feature not supported");
    assert_eq!(err.category, ErrorCategory::Unsupported);
    assert_eq!(err.message, "Feature not supported");
}

#[test]
fn test_sql_error_translation() {
    let err = SqlError::translation("Translation failed");
    assert_eq!(err.category, ErrorCategory::Translation);
    assert_eq!(err.message, "Translation failed");
}

#[test]
fn test_sql_error_with_position() {
    let err = SqlError::syntax("Error at position").with_position(42);
    assert_eq!(err.position, Some(42));
}

#[test]
fn test_sql_error_with_suggestion() {
    let err = SqlError::syntax("Error").with_suggestion("Try this instead");
    assert_eq!(err.suggestion, Some("Try this instead".to_string()));
}

#[test]
fn test_sql_error_with_position_and_suggestion() {
    let err = SqlError::syntax("Error").with_position(10).with_suggestion("Fix it");
    assert_eq!(err.position, Some(10));
    assert_eq!(err.suggestion, Some("Fix it".to_string()));
}

#[test]
fn test_sql_error_display_syntax() {
    let err = SqlError::syntax("bad syntax");
    let display = err.display_string();
    assert!(display.contains("Syntax error"));
    assert!(display.contains("bad syntax"));
}

#[test]
fn test_sql_error_display_unsupported() {
    let err = SqlError::unsupported("JOINs not supported");
    let display = err.display_string();
    assert!(display.contains("Unsupported feature"));
    assert!(display.contains("JOINs not supported"));
}

#[test]
fn test_sql_error_display_translation() {
    let err = SqlError::translation("Failed to translate");
    let display = err.display_string();
    assert!(display.contains("Translation error"));
    assert!(display.contains("Failed to translate"));
}

#[test]
fn test_sql_error_from_parser_error() {
    let sql_err = parse("SELEC * FROM idx").unwrap_err();
    assert_eq!(sql_err.category, ErrorCategory::Syntax);
    assert!(!sql_err.message.is_empty());
}

#[test]
fn test_error_category_equality() {
    assert_eq!(ErrorCategory::Syntax, ErrorCategory::Syntax);
    assert_eq!(ErrorCategory::Unsupported, ErrorCategory::Unsupported);
    assert_eq!(ErrorCategory::Translation, ErrorCategory::Translation);
    assert_ne!(ErrorCategory::Syntax, ErrorCategory::Unsupported);
    assert_ne!(ErrorCategory::Unsupported, ErrorCategory::Translation);
}

#[test]
fn test_error_category_clone() {
    let cat = ErrorCategory::Syntax;
    let cloned = cat;
    assert_eq!(cat, cloned);
}

#[test]
fn test_error_category_debug() {
    let debug_str = format!("{:?}", ErrorCategory::Syntax);
    assert_eq!(debug_str, "Syntax");
}

#[test]
fn test_sql_error_debug() {
    let err = SqlError::syntax("test").with_position(5);
    let debug_str = format!("{err:?}");
    assert!(debug_str.contains("SqlError"));
    assert!(debug_str.contains("Syntax"));
    assert!(debug_str.contains("test"));
    assert!(debug_str.contains("5"));
}

#[test]
fn test_sql_error_constructors_with_string() {
    let err1 = SqlError::syntax(String::from("error1"));
    let err2 = SqlError::unsupported(String::from("error2"));
    let err3 = SqlError::translation(String::from("error3"));
    assert_eq!(err1.message, "error1");
    assert_eq!(err2.message, "error2");
    assert_eq!(err3.message, "error3");
}

#[test]
fn test_sql_error_suggestion_with_string() {
    let err = SqlError::syntax("Error").with_suggestion(String::from("suggestion"));
    assert_eq!(err.suggestion, Some("suggestion".to_string()));
}

#[test]
fn sql_error_display_has_prefix_category_and_message() {
    let err = SqlError::unsupported("no joins");
    assert_eq!(err.display_string(), "SQL Error: Unsupported feature: no joins");
}
