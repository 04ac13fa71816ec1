use rholang_parser::errors::{ErrorKind, ParseResult, ParserError, SourcePosition};

#[test]
fn errors_tests_test_source_position_display() {
    let pos = SourcePosition { line: 10, column: 20 };
    assert_eq!(pos.to_text(), "line 10, column 20");
}

#[test]
fn test_parser_error_creation() {
    let pos = SourcePosition { line: 5, column: 10 };
    let err = ParserError::parsing_error("Parse error", Some(pos.clone()), Some("code".to_string()));

    assert_eq!(err.kind, ErrorKind::ParsingError);
    assert_eq!(err.message, "Parse error");
    assert_eq!(err.position.clone().unwrap().line, 5);
    assert_eq!(err.position.clone().unwrap().column, 10);
    assert_eq!(err.source.clone().unwrap(), "code");

    let err = ParserError::tree_sitter_error("Tree-sitter error", Some(pos), Some("code".to_string()));

    assert_eq!(err.kind, ErrorKind::TreeSitterError);
    assert_eq!(err.message, "Tree-sitter error");

    let err = ParserError::other_error("Other error");

    assert_eq!(err.kind, ErrorKind::OtherError);
    assert_eq!(err.message, "Other error");
    assert!(err.position.is_none());
    assert!(err.source.is_none());
}

#[test]
fn test_parser_error_display() {
    let pos = SourcePosition { line: 5, column: 10 };
    let err = ParserError::parsing_error("Parse error", Some(pos), Some("code".to_string()));

    assert_eq!(
        err.to_text(),
        "Parsing error: Parse error at line 5, column 10\nSource: code"
    );

    let err = ParserError::tree_sitter_error("Tree-sitter error", None, None);

    assert_eq!(err.to_text(), "Tree-sitter error: Tree-sitter error");

    let err = ParserError::other_error("Other error");

    assert_eq!(err.to_text(), "Error: Other error");
}

#[test]
fn test_parse_result_creation() {
    let result: ParseResult<String> = ParseResult::success("Success".to_string());

    assert!(result.is_success());
    assert!(!result.is_error());

    let err = ParserError::other_error("Error");
    let result: ParseResult<String> = ParseResult::error(err);

    assert!(!result.is_success());
    assert!(result.is_error());
}

#[test]
fn test_parse_result_map() {
    let result: ParseResult<String> = ParseResult::success("42".to_string());
    let mapped: ParseResult<i32> = result.map(|s| s.parse::<i32>().unwrap());

    match mapped {
        ParseResult::Success(value) => assert_eq!(value, 42),
        ParseResult::Error(_) => panic!("Expected success"),
    }

    let err = ParserError::other_error("Error");
    let result: ParseResult<String> = ParseResult::error(err);
    let mapped: ParseResult<i32> = result.map(|s| s.parse::<i32>().unwrap());

    assert!(mapped.is_error());
}

#[test]
fn test_parse_result_unwrap() {
    let result: ParseResult<String> = ParseResult::success("Success".to_string());

    assert_eq!(result.unwrap(), "Success");
}

#[test]
fn test_parse_result_unwrap_err() {
    let err = ParserError::other_error("Error");
    let result: ParseResult<String> = ParseResult::error(err);

    let unwrapped = result.unwrap_err();
    assert_eq!(unwrapped.message, "Error");
}

#[test]
fn test_parse_result_from_parser_error() {
    let err = ParserError::other_error("Error");
    let result: ParseResult<String> = err.into();

    assert!(result.is_error());
}

#[test]
fn parser_error_report_without_source_keeps_the_place() {
    let err = ParserError::tree_sitter_error(
        "grammar",
        Some(SourcePosition { line: 1, column: 100 }),
        None,
    );
    assert_eq!(err.to_text(), "Tree-sitter error: grammar at line 1, column 100");
    let err = ParserError::other_error("");
    assert_eq!(err.to_text(), "Error: ");
}
