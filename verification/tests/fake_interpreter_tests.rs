use rholang_parser::fake::errors::{ErrorKind, InterpretationResult};
use rholang_parser::fake::parser::RholangParser;
use rholang_parser::fake::FakeRholangInterpreter;

#[test]
fn test_arithmetic() {
    let mut interpreter = FakeRholangInterpreter::new().unwrap();

    // Valid arithmetic expressions
    assert!(interpreter.is_valid("1 + 2"));
    assert!(interpreter.is_valid("5 - 3"));
    assert!(interpreter.is_valid("2 * 3"));
    assert!(interpreter.is_valid("6 / 2"));

    // The result should contain the arithmetic expression
    let result = interpreter.interpret("1 + 2");
    match result {
        InterpretationResult::Success(output) => {
            assert!(output.contains("Addition expression: 1 + 2"));
        }
        InterpretationResult::Error(err) => {
            panic!("Expected success, got error: {}", err.to_text());
        }
    }
}

#[test]
fn test_print_statement() {
    let mut interpreter = FakeRholangInterpreter::new().unwrap();

    let input = "@\"stdout\"!(\"Hello, world!\")";
    assert!(interpreter.is_valid(input));

    // The result should contain the output message
    let result = interpreter.interpret(input);
    match result {
        InterpretationResult::Success(output) => {
            assert!(output.contains("Output: Hello, world!"));
        }
        InterpretationResult::Error(err) => {
            panic!("Expected success, got error: {}", err.to_text());
        }
    }
}

#[test]
fn test_for_comprehension() {
    let mut interpreter = FakeRholangInterpreter::new().unwrap();

    let input = "for (msg <- channel) { @\"stdout\"!(msg) }";
    assert!(interpreter.is_valid(input));

    // The result should contain the listening message
    let result = interpreter.interpret(input);
    match result {
        InterpretationResult::Success(output) => {
            assert!(output.contains("Listening for messages on channel as msg"));
        }
        InterpretationResult::Error(err) => {
            panic!("Expected success, got error: {}", err.to_text());
        }
    }
}

#[test]
fn test_new_declaration() {
    let mut interpreter = FakeRholangInterpreter::new().unwrap();

    let input = "new channel in { @\"stdout\"!(\"Using channel\") }";
    assert!(interpreter.is_valid(input));

    // The result should contain the created name
    let result = interpreter.interpret(input);
    match result {
        InterpretationResult::Success(output) => {
            assert!(output.contains("Created new name: channel"));
        }
        InterpretationResult::Error(err) => {
            panic!("Expected success, got error: {}", err.to_text());
        }
    }
}

#[test]
fn test_invalid_code() {
    let mut interpreter = FakeRholangInterpreter::new().unwrap();

    // Missing closing brace
    let input = "new channel in { @\"stdout\"!(\"Using channel\")";
    assert!(!interpreter.is_valid(input));

    // Interpret should return an error for invalid code
    let result = interpreter.interpret(input);
    assert!(result.is_error());
}

#[test]
fn test_is_valid() {
    let mut parser = RholangParser::new().unwrap();

    // Valid Rholang code
    assert!(parser.is_valid("new channel in { @\"stdout\"!(\"Hello, world!\") }"));

    // Invalid Rholang code (missing closing brace)
    assert!(!parser.is_valid("new channel in { @\"stdout\"!(\"Hello, world!\")"));
}

#[test]
fn test_get_tree_string() {
    let mut parser = RholangParser::new().unwrap();
    let code = "new channel in { @\"stdout\"!(\"Hello, world!\") }";

    let result = parser.get_tree_string(code);
    match result {
        InterpretationResult::Success(tree_string) => {
            assert!(tree_string.starts_with("Parse tree:"));
        }
        InterpretationResult::Error(err) => {
            panic!("Expected success, got error: {}", err.to_text());
        }
    }
}

#[test]
fn brackets_balance_kind_by_kind() {
    let mut parser = RholangParser::new().unwrap();
    assert!(parser.is_valid(""));
    assert!(parser.is_valid("([{}])"));
    assert!(parser.is_valid("(]")  == false);
    assert!(parser.is_valid("([)]"));
    assert!(!parser.is_valid(")("));
    assert!(!parser.is_valid("}"));
    assert!(!parser.is_valid("[[]"));
}

#[test]
fn answers_are_the_exact_texts() {
    let mut interpreter = FakeRholangInterpreter::new().unwrap();
    assert_eq!(interpreter.interpret("  1 + 2  ").unwrap(), "Addition expression: 1 + 2");
    assert_eq!(interpreter.interpret("5 - 3").unwrap(), "Subtraction expression: 5 - 3");
    assert_eq!(interpreter.interpret("2 * 3").unwrap(), "Multiplication expression: 2 * 3");
    assert_eq!(interpreter.interpret("6 / 2").unwrap(), "Division expression: 6 / 2");
    assert_eq!(interpreter.interpret("Nil").unwrap(), "Parse tree: Nil");
    assert_eq!(
        interpreter.interpret("@\"stdout\"!(msg)").unwrap(),
        "Output: msg"
    );
    assert_eq!(
        interpreter.interpret("for ( x  <-  y ) { Nil }").unwrap(),
        "Listening for messages on y as x"
    );
    assert_eq!(
        interpreter.interpret("new a, b in { Nil }").unwrap(),
        "Created new name: a, b"
    );
}

#[test]
fn print_with_a_lone_quote_keeps_the_quote() {
    let mut interpreter = FakeRholangInterpreter::new().unwrap();
    assert_eq!(interpreter.interpret("@\"stdout\"!(\")").unwrap(), "Output: \"");
    assert_eq!(interpreter.interpret("@\"stdout\"!(\"\")").unwrap(), "Output: ");
}

#[test]
fn invalid_code_is_reported_with_its_source() {
    let mut interpreter = FakeRholangInterpreter::new().unwrap();
    let err = interpreter.interpret("(").unwrap_err();
    assert_eq!(err.kind, ErrorKind::ParsingError);
    assert_eq!(err.message, "Invalid Rholang code");
    assert!(err.position.is_none());
    assert_eq!(err.source, Some("(".to_string()));
    assert_eq!(err.to_text(), "Parsing error: Invalid Rholang code\nSource: (");
}

#[test]
fn delay_is_two_seconds_until_set() {
    let mut interpreter = FakeRholangInterpreter::new().unwrap();
    assert_eq!(interpreter.delay_ms(), 2000);
    interpreter.set_delay(5);
    assert_eq!(interpreter.delay_ms(), 5);
}
