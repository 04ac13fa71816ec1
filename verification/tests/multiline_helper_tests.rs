use rholang_parser::shell::multiline_helper::{has_double_newline, process_line};

#[test]
fn test_has_double_newline() {
    assert!(!has_double_newline("line one"));
    assert!(!has_double_newline("line one\nline two"));
    assert!(has_double_newline("line one\n\nline three"));
}

#[test]
fn test_process_line_single_line() {
    let mut buffer = String::new();
    let mut multiline = false;

    let execute = process_line("println(\"hello\")", &mut buffer, &mut multiline);

    assert_eq!(buffer, "println(\"hello\")");
    assert_eq!(multiline, false);
    assert_eq!(execute, false);
}

#[test]
fn test_process_line_enter_multiline() {
    let mut buffer = String::new();
    let mut multiline = false;

    let execute = process_line("println(\"hello\")", &mut buffer, &mut multiline);
    assert_eq!(execute, false);

    let execute = process_line("", &mut buffer, &mut multiline);

    assert_eq!(buffer, "println(\"hello\")\n");
    assert_eq!(multiline, true);
    assert_eq!(execute, false);
}

#[test]
fn test_process_line_execute_multiline() {
    let mut buffer = String::new();
    let mut multiline = false;

    process_line("println(\"hello\")", &mut buffer, &mut multiline);
    process_line("", &mut buffer, &mut multiline);
    process_line("println(\"world\")", &mut buffer, &mut multiline);

    assert_eq!(multiline, true);

    let execute = process_line("", &mut buffer, &mut multiline);

    assert_eq!(buffer, "println(\"hello\")\n\nprintln(\"world\")");
    assert_eq!(multiline, false);
    assert_eq!(execute, true);
}

#[test]
fn has_double_newline_at_the_edges() {
    assert!(has_double_newline("\n\n"));
    assert!(has_double_newline("a\n\n"));
    assert!(has_double_newline("\n\na"));
    assert!(!has_double_newline(""));
    assert!(!has_double_newline("\n"));
    assert!(!has_double_newline("\n \n"));
}

#[test]
fn process_line_takes_every_trailing_line_break_off() {
    let mut buffer = String::from("a\n");
    let mut multiline = true;
    let execute = process_line("", &mut buffer, &mut multiline);
    assert!(execute);
    assert_eq!(buffer, "a");
    assert!(!multiline);
}
