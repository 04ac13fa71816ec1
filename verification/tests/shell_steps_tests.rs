use rholang_parser::bridge::ParserResult;
use rholang_parser::errors::{ParseResult, ParserError, SourcePosition};
use rholang_parser::shell::process_table::ProcessTable;
use rholang_parser::shell::interpreter::{FakeInterpreter, Interpreter};
use rholang_parser::shell::providers::{
    FakeInterpreterProvider, InterpretationResult, InterpreterError, InterpreterProvider,
};
use rholang_parser::shell::{
    handle_interrupt, interrupt_report, kill_report, process_classified_line,
    process_multiline_input, process_special_command, ps_report,
};

struct Failing;

impl InterpreterProvider for Failing {
    fn interpret(&self, _code: &str) -> InterpretationResult {
        InterpretationResult::Error(InterpreterError::other_error("down"))
    }

    fn list_processes(&self) -> Result<Vec<(usize, String)>, String> {
        Err("no list".to_string())
    }

    fn kill_process(&self, _pid: usize) -> Result<bool, String> {
        Err("no kill".to_string())
    }

    fn kill_all_processes(&self) -> Result<usize, String> {
        Err("no kill at all".to_string())
    }
}

fn special(command: &str, buffer: &mut Vec<String>, multiline: &mut bool) -> (bool, String, Vec<String>) {
    let mut stdout = String::new();
    let mut prompts = Vec::new();
    let exit = process_special_command(
        command,
        buffer,
        multiline,
        &mut stdout,
        |p| {
            prompts.push(p.to_string());
            Ok(())
        },
        &FakeInterpreterProvider,
    )
    .unwrap();
    (exit, stdout, prompts)
}

#[test]
fn buffer_command_writes_the_buffer_as_a_list() {
    let mut buffer = vec!["a".to_string(), "b \"c\"".to_string()];
    let mut multiline = true;
    let (exit, out, prompts) = special(".buffer", &mut buffer, &mut multiline);
    assert!(!exit);
    assert_eq!(out, "Current buffer: [\"a\", \"b \\\"c\\\"\"]\n");
    assert!(prompts.is_empty());
    assert_eq!(buffer.len(), 2);
}

#[test]
fn mode_command_back_to_single_line_clears_the_buffer_and_shows_a_prompt() {
    let mut buffer = vec!["a".to_string()];
    let mut multiline = true;
    let (exit, out, prompts) = special(".mode", &mut buffer, &mut multiline);
    assert!(!exit);
    assert!(!multiline);
    assert!(buffer.is_empty());
    assert_eq!(out, "Switched to single line mode\n");
    assert_eq!(prompts, vec![">>> ".to_string()]);

    let (_, out, prompts) = special(".mode", &mut buffer, &mut multiline);
    assert!(multiline);
    assert_eq!(out, "Switched to multiline mode (enter twice to execute)\n");
    assert!(prompts.is_empty());
}

#[test]
fn a_prompt_that_fails_ends_the_step_with_its_error() {
    let mut buffer = vec!["a".to_string()];
    let mut multiline = true;
    let mut stdout = String::new();
    let r = process_special_command(
        ".reset",
        &mut buffer,
        &mut multiline,
        &mut stdout,
        |_| Err("no terminal".to_string()),
        &FakeInterpreterProvider,
    );
    assert_eq!(r, Err("no terminal".to_string()));
    assert!(buffer.is_empty());
    assert_eq!(stdout, "");

    let mut buffer = vec!["a".to_string()];
    let r = process_special_command(
        ".mode",
        &mut buffer,
        &mut multiline,
        &mut stdout,
        |_| Err("no terminal".to_string()),
        &FakeInterpreterProvider,
    );
    assert_eq!(r, Err("no terminal".to_string()));
    assert!(!multiline);
    assert!(buffer.is_empty());
    assert_eq!(stdout, "");
}

#[test]
fn list_delete_and_exact_outputs() {
    let mut buffer = vec!["one".to_string(), "two".to_string()];
    let mut multiline = true;
    assert_eq!(special(".list", &mut buffer, &mut multiline).1, "Edited lines:\none\ntwo\n");
    assert_eq!(special(".del", &mut buffer, &mut multiline).1, "Removed last line: two\n");
    assert_eq!(buffer, vec!["one".to_string()]);
    assert_eq!(special(".delete", &mut buffer, &mut multiline).1, "Removed last line: one\n");
    assert_eq!(special(".del", &mut buffer, &mut multiline).1, "Buffer is empty, nothing to delete\n");
    assert_eq!(special(".list", &mut buffer, &mut multiline).1, "Edited lines:\n");
    assert_eq!(special(".quit", &mut buffer, &mut multiline), (true, "Exiting shell...\n".to_string(), vec![]));
    assert_eq!(special(".helpx", &mut buffer, &mut multiline).1, "Unknown command: .helpx\n");
    assert_eq!(special(".", &mut buffer, &mut multiline).1, "Unknown command: .\n");
    assert_eq!(special("", &mut buffer, &mut multiline), (false, String::new(), vec![]));
    assert_eq!(special(".ps", &mut buffer, &mut multiline).1, "No running processes\n");
    assert_eq!(special(".kill", &mut buffer, &mut multiline).1, "Unknown command: .kill\n");
}

#[test]
fn kill_reads_the_number_without_the_white_space_around_it() {
    let mut buffer = Vec::new();
    let mut multiline = false;
    assert_eq!(special(".kill   12 ", &mut buffer, &mut multiline).1, "Process 12 not found\n");
    assert_eq!(special(".kill +3", &mut buffer, &mut multiline).1, "Process 3 not found\n");
    assert_eq!(special(".kill \t7\n", &mut buffer, &mut multiline).1, "Process 7 not found\n");
    assert_eq!(special(".kill -1", &mut buffer, &mut multiline).1, "Invalid process ID: -1\n");
    assert_eq!(special(".kill ", &mut buffer, &mut multiline).1, "Invalid process ID: \n");
    assert_eq!(special(".kill  x ", &mut buffer, &mut multiline).1, "Invalid process ID:  x \n");
    assert_eq!(
        special(".kill 99999999999999999999999", &mut buffer, &mut multiline).1,
        "Invalid process ID: 99999999999999999999999\n"
    );
}

#[test]
fn reports_for_every_answer() {
    assert_eq!(kill_report(4, &Ok(true)), "Process 4 killed successfully\n");
    assert_eq!(kill_report(0, &Ok(false)), "Process 0 not found\n");
    assert_eq!(kill_report(10, &Err("busy".to_string())), "Error killing process 10: busy\n");
    assert_eq!(ps_report(&Ok(vec![])), "No running processes\n");
    assert_eq!(
        ps_report(&Ok(vec![(1, "a".to_string()), (20, "b c".to_string())])),
        "Running processes:\n  1: a\n  20: b c\n"
    );
    assert_eq!(ps_report(&Err("gone".to_string())), "Error listing processes: gone\n");
    assert_eq!(interrupt_report(&Ok(0)), "Input interrupted with Ctrl+C\n");
    assert_eq!(
        interrupt_report(&Ok(3)),
        "Killed 3 running processes\nInput interrupted with Ctrl+C\n"
    );
    assert_eq!(
        interrupt_report(&Err("x".to_string())),
        "Error killing processes: x\nInput interrupted with Ctrl+C\n"
    );
}

#[test]
fn failing_interpreter_is_reported_not_propagated() {
    let mut buffer = Vec::new();
    let mut multiline = false;
    let mut stdout = String::new();
    let exit =
        process_special_command(".ps", &mut buffer, &mut multiline, &mut stdout, |_| Ok(()), &Failing)
            .unwrap();
    assert!(!exit);
    assert_eq!(stdout, "Error listing processes: no list\n");
    let mut stdout = String::new();
    process_special_command(".kill 1", &mut buffer, &mut multiline, &mut stdout, |_| Ok(()), &Failing)
        .unwrap();
    assert_eq!(stdout, "Error killing process 1: no kill\n");
    let mut stdout = String::new();
    handle_interrupt(&mut buffer, false, &mut stdout, |_| Ok(()), &Failing).unwrap();
    assert_eq!(stdout, "Error killing processes: no kill at all\nInput interrupted with Ctrl+C\n");
}

#[test]
fn interrupt_in_multiline_mode_shows_a_fresh_prompt_first() {
    let mut buffer = vec!["a".to_string()];
    let mut stdout = String::new();
    let mut prompts = Vec::new();
    handle_interrupt(
        &mut buffer,
        true,
        &mut stdout,
        |p| {
            prompts.push(p.to_string());
            Ok(())
        },
        &FakeInterpreterProvider,
    )
    .unwrap();
    assert_eq!(prompts, vec![">>> ".to_string()]);
    assert!(buffer.is_empty());
    assert_eq!(stdout, "Input interrupted with Ctrl+C\n");

    let mut buffer = vec!["a".to_string()];
    let mut stdout = String::new();
    let r = handle_interrupt(
        &mut buffer,
        true,
        &mut stdout,
        |_| Err("no terminal".to_string()),
        &FakeInterpreterProvider,
    );
    assert_eq!(r, Err("no terminal".to_string()));
    assert!(buffer.is_empty());
    assert_eq!(stdout, "");
}

#[test]
fn multiline_input_asks_for_the_right_prompts() {
    let mut buffer = Vec::new();
    let mut prompts = Vec::new();
    let r = process_multiline_input("a".to_string(), &mut buffer, |p| {
        prompts.push(p.to_string());
        Ok(())
    });
    assert_eq!(r, Ok(None));
    let r = process_multiline_input("b".to_string(), &mut buffer, |p| {
        prompts.push(p.to_string());
        Ok(())
    });
    assert_eq!(r, Ok(None));
    let r = process_multiline_input(String::new(), &mut buffer, |p| {
        prompts.push(p.to_string());
        Ok(())
    });
    assert_eq!(r, Ok(Some("a\nb".to_string())));
    assert_eq!(prompts, vec!["... ".to_string(), ">>> ".to_string()]);
    assert!(buffer.is_empty());

    let mut buffer = vec!["only".to_string()];
    let r = process_multiline_input(String::new(), &mut buffer, |_| Ok(()));
    assert_eq!(r, Ok(Some("only".to_string())));

    let mut buffer = Vec::new();
    let r = process_multiline_input("a".to_string(), &mut buffer, |_| Err("e".to_string()));
    assert_eq!(r, Err("e".to_string()));
    assert_eq!(buffer, vec!["a".to_string()]);
}

#[test]
fn a_classified_line_is_handled_for_every_answer_of_the_bracket_parser() {
    for inside in [None, Some(false)] {
        let mut buffer = Vec::new();
        let mut multiline = false;
        let r = process_classified_line("x {".to_string(), inside, &mut buffer, &mut multiline, |_| Ok(()));
        assert_eq!(r, Ok(Some("x {".to_string())));
        assert!(buffer.is_empty());
        assert!(!multiline);
    }
    let mut buffer = Vec::new();
    let mut multiline = false;
    let mut prompts = Vec::new();
    let r = process_classified_line("x {".to_string(), Some(true), &mut buffer, &mut multiline, |p| {
        prompts.push(p.to_string());
        Ok(())
    });
    assert_eq!(r, Ok(None));
    assert_eq!(buffer, vec!["x {".to_string()]);
    assert!(multiline);
    assert_eq!(prompts, vec!["... ".to_string()]);

    let mut buffer = Vec::new();
    let r = process_classified_line(String::new(), Some(true), &mut buffer, &mut multiline, |_| Ok(()));
    assert_eq!(r, Ok(None));
    assert!(buffer.is_empty());
}

#[test]
fn provider_errors_and_results() {
    let e = InterpreterError::parsing_error("bad", Some("1:2".to_string()), Some("x".to_string()));
    assert_eq!(e.to_text(), "bad at 1:2\nSource: x");
    assert_eq!(InterpreterError::timeout_error("slow").to_text(), "slow");
    assert_eq!(InterpreterError::cancellation_error("stop").message, "stop");
    assert!(InterpreterError::other_error("x").position.is_none());
    let ok = InterpretationResult::Success("v".to_string());
    assert!(ok.is_success());
    assert!(!ok.is_error());
    assert_eq!(ok.unwrap(), "v");
    let err = InterpretationResult::Error(InterpreterError::other_error("x"));
    assert!(err.is_error());
    assert_eq!(err.unwrap_err().message, "x");
}

#[test]
fn fake_providers_answer_with_the_code() {
    let p = FakeInterpreterProvider;
    assert_eq!(p.interpret("1 + 2").unwrap(), "1 + 2");
    assert_eq!(p.list_processes(), Ok(vec![]));
    assert_eq!(p.kill_process(3), Ok(false));
    assert_eq!(p.kill_all_processes(), Ok(0));
    assert_eq!(FakeInterpreter.interpret("code".to_string()), Ok("code".to_string()));
}

#[test]
fn process_table_numbers_runs_from_one() {
    let mut table: ProcessTable<&str> = ProcessTable::new();
    assert_eq!(table.len(), 0);
    assert!(table.has_room());
    assert_eq!(table.register("a".to_string(), "ha"), 1);
    assert_eq!(table.register("b".to_string(), "hb"), 2);
    assert_eq!(table.register("c".to_string(), "hc"), 3);
    assert_eq!(
        table.list(),
        vec![(1, "a".to_string()), (2, "b".to_string()), (3, "c".to_string())]
    );
    assert_eq!(table.remove(2), Some("hb"));
    assert_eq!(table.remove(2), None);
    assert_eq!(table.remove(7), None);
    assert_eq!(table.list(), vec![(1, "a".to_string()), (3, "c".to_string())]);
    // a number is not given twice
    assert_eq!(table.register("d".to_string(), "hd"), 4);
    assert_eq!(table.len(), 3);
    assert_eq!(table.drain(), vec!["ha", "hc", "hd"]);
    assert_eq!(table.len(), 0);
    assert_eq!(table.drain(), Vec::<&str>::new());
    assert_eq!(table.register("e".to_string(), "he"), 5);
}

#[test]
fn bridge_results() {
    let ok = ParserResult::from_parse_result(ParseResult::success("tree".to_string()));
    assert_eq!(ok, ParserResult { valid: true, tree: Some("tree".to_string()), error: None });
    let err = ParserResult::from_parse_result(ParseResult::error(ParserError::parsing_error(
        "bad",
        Some(SourcePosition { line: 2, column: 3 }),
        None,
    )));
    assert_eq!(
        err,
        ParserResult {
            valid: false,
            tree: None,
            error: Some("Parsing error: bad at line 2, column 3".to_string()),
        }
    );
    assert_eq!(
        ParserResult::failure("no string"),
        ParserResult { valid: false, tree: None, error: Some("no string".to_string()) }
    );
    assert_eq!(ParserResult::checked(true), ParserResult { valid: true, tree: None, error: None });
}
