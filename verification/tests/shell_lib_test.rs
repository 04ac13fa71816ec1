use rholang_parser::shell::providers::{InterpretationResult, InterpreterProvider};
use rholang_parser::shell::{
    handle_interrupt, help_message, process_multiline_input, process_single_line_input,
    process_special_command, Args,
};

// A simple mock interpreter provider for testing
struct MockInterpreterProvider {
    processes: Vec<(usize, String)>,
}

impl MockInterpreterProvider {
    fn new() -> Self {
        MockInterpreterProvider { processes: Vec::new() }
    }

    fn with_processes(processes: Vec<(usize, String)>) -> Self {
        MockInterpreterProvider { processes }
    }
}

impl InterpreterProvider for MockInterpreterProvider {
    fn interpret(&self, code: &str) -> InterpretationResult {
        InterpretationResult::Success(format!("Interpreted: {}", code))
    }

    fn list_processes(&self) -> Result<Vec<(usize, String)>, String> {
        Ok(self.processes.clone())
    }

    fn kill_process(&self, pid: usize) -> Result<bool, String> {
        Ok(self.processes.iter().any(|(id, _)| *id == pid))
    }

    fn kill_all_processes(&self) -> Result<usize, String> {
        Ok(self.processes.len())
    }
}

#[test]
fn test_help_message() {
    let message = help_message();
    assert!(message.contains(".help"));
    assert!(message.contains(".mode"));
    assert!(message.contains(".list"));
    assert!(message.contains(".delete"));
    assert!(message.contains(".reset"));
    assert!(message.contains(".ps"));
    assert!(message.contains(".kill"));
    assert!(message.contains(".quit"));
}

#[test]
fn lib_test_test_process_special_command_help() {
    let mut buffer = Vec::new();
    let mut multiline = false;
    let mut stdout = String::new();
    let interpreter = MockInterpreterProvider::new();

    let should_exit = process_special_command(
        ".help",
        &mut buffer,
        &mut multiline,
        &mut stdout,
        |_| Ok(()),
        &interpreter,
    )
    .unwrap();

    assert!(!should_exit);
    let output = stdout;
    assert!(output.contains(".help"));
    assert!(output.contains(".mode"));
}

#[test]
fn lib_test_test_process_special_command_mode() {
    let mut buffer = Vec::new();
    let mut multiline = false;
    let mut stdout = String::new();
    let interpreter = MockInterpreterProvider::new();

    let should_exit = process_special_command(
        ".mode",
        &mut buffer,
        &mut multiline,
        &mut stdout,
        |_| Ok(()),
        &interpreter,
    )
    .unwrap();

    assert!(!should_exit);
    assert!(multiline); // Should have toggled to true
    let output = stdout;
    assert!(output.contains("Switched to multiline mode"));
}

#[test]
fn lib_test_test_process_special_command_quit() {
    let mut buffer = Vec::new();
    let mut multiline = false;
    let mut stdout = String::new();
    let interpreter = MockInterpreterProvider::new();

    let should_exit = process_special_command(
        ".quit",
        &mut buffer,
        &mut multiline,
        &mut stdout,
        |_| Ok(()),
        &interpreter,
    )
    .unwrap();

    assert!(should_exit); // Should signal to exit
    let output = stdout;
    assert!(output.contains("Exiting shell"));
}

#[test]
fn lib_test_test_process_special_command_list() {
    let mut buffer = vec!["line1".to_string(), "line2".to_string()];
    let mut multiline = true;
    let mut stdout = String::new();
    let interpreter = MockInterpreterProvider::new();

    let should_exit = process_special_command(
        ".list",
        &mut buffer,
        &mut multiline,
        &mut stdout,
        |_| Ok(()),
        &interpreter,
    )
    .unwrap();

    assert!(!should_exit);
    let output = stdout;
    assert!(output.contains("Edited lines:"));
    assert!(output.contains("line1"));
    assert!(output.contains("line2"));
}

#[test]
fn lib_test_test_process_special_command_delete() {
    let mut buffer = vec!["line1".to_string(), "line2".to_string()];
    let mut multiline = true;
    let mut stdout = String::new();
    let interpreter = MockInterpreterProvider::new();

    let should_exit = process_special_command(
        ".delete",
        &mut buffer,
        &mut multiline,
        &mut stdout,
        |_| Ok(()),
        &interpreter,
    )
    .unwrap();

    assert!(!should_exit);
    assert_eq!(buffer, vec!["line1".to_string()]); // line2 should be removed
    let output = stdout;
    assert!(output.contains("Removed last line: line2"));
}

#[test]
fn lib_test_test_process_special_command_delete_empty() {
    let mut buffer = Vec::new();
    let mut multiline = true;
    let mut stdout = String::new();
    let interpreter = MockInterpreterProvider::new();

    let should_exit = process_special_command(
        ".delete",
        &mut buffer,
        &mut multiline,
        &mut stdout,
        |_| Ok(()),
        &interpreter,
    )
    .unwrap();

    assert!(!should_exit);
    let output = stdout;
    assert!(output.contains("Buffer is empty, nothing to delete"));
}

#[test]
fn lib_test_test_process_special_command_reset() {
    let mut buffer = vec!["line1".to_string(), "line2".to_string()];
    let mut multiline = true;
    let mut stdout = String::new();
    let interpreter = MockInterpreterProvider::new();

    let should_exit = process_special_command(
        ".reset",
        &mut buffer,
        &mut multiline,
        &mut stdout,
        |_| Ok(()),
        &interpreter,
    )
    .unwrap();

    assert!(!should_exit);
    assert!(buffer.is_empty()); // Buffer should be cleared
    let output = stdout;
    assert!(output.contains("Buffer reset"));
}

#[test]
fn test_process_special_command_ps() {
    let mut buffer = Vec::new();
    let mut multiline = false;
    let mut stdout = String::new();
    let interpreter = MockInterpreterProvider::with_processes(vec![
        (1, "process1".to_string()),
        (2, "process2".to_string()),
    ]);

    let should_exit = process_special_command(
        ".ps",
        &mut buffer,
        &mut multiline,
        &mut stdout,
        |_| Ok(()),
        &interpreter,
    )
    .unwrap();

    assert!(!should_exit);
    let output = stdout;
    assert!(output.contains("Running processes:"));
    assert!(output.contains("1: process1"));
    assert!(output.contains("2: process2"));
}

#[test]
fn test_process_special_command_ps_empty() {
    let mut buffer = Vec::new();
    let mut multiline = false;
    let mut stdout = String::new();
    let interpreter = MockInterpreterProvider::new();

    let should_exit = process_special_command(
        ".ps",
        &mut buffer,
        &mut multiline,
        &mut stdout,
        |_| Ok(()),
        &interpreter,
    )
    .unwrap();

    assert!(!should_exit);
    let output = stdout;
    assert!(output.contains("No running processes"));
}

#[test]
fn test_process_special_command_kill() {
    let mut buffer = Vec::new();
    let mut multiline = false;
    let mut stdout = String::new();
    let interpreter = MockInterpreterProvider::with_processes(vec![
        (1, "process1".to_string()),
        (2, "process2".to_string()),
    ]);

    let should_exit = process_special_command(
        ".kill 1",
        &mut buffer,
        &mut multiline,
        &mut stdout,
        |_| Ok(()),
        &interpreter,
    )
    .unwrap();

    assert!(!should_exit);
    let output = stdout;
    assert!(output.contains("Process 1 killed successfully"));
}

#[test]
fn test_process_special_command_kill_nonexistent() {
    let mut buffer = Vec::new();
    let mut multiline = false;
    let mut stdout = String::new();
    let interpreter = MockInterpreterProvider::new();

    let should_exit = process_special_command(
        ".kill 999",
        &mut buffer,
        &mut multiline,
        &mut stdout,
        |_| Ok(()),
        &interpreter,
    )
    .unwrap();

    assert!(!should_exit);
    let output = stdout;
    assert!(output.contains("Process 999 not found"));
}

#[test]
fn test_process_special_command_kill_invalid() {
    let mut buffer = Vec::new();
    let mut multiline = false;
    let mut stdout = String::new();
    let interpreter = MockInterpreterProvider::new();

    let should_exit = process_special_command(
        ".kill abc",
        &mut buffer,
        &mut multiline,
        &mut stdout,
        |_| Ok(()),
        &interpreter,
    )
    .unwrap();

    assert!(!should_exit);
    let output = stdout;
    assert!(output.contains("Invalid process ID: abc"));
}

#[test]
fn lib_test_test_process_special_command_unknown() {
    let mut buffer = Vec::new();
    let mut multiline = false;
    let mut stdout = String::new();
    let interpreter = MockInterpreterProvider::new();

    let should_exit = process_special_command(
        ".unknown",
        &mut buffer,
        &mut multiline,
        &mut stdout,
        |_| Ok(()),
        &interpreter,
    )
    .unwrap();

    assert!(!should_exit);
    let output = stdout;
    assert!(output.contains("Unknown command: .unknown"));
}

#[test]
fn lib_test_test_process_special_command_not_special() {
    let mut buffer = Vec::new();
    let mut multiline = false;
    let mut stdout = String::new();
    let interpreter = MockInterpreterProvider::new();

    let should_exit = process_special_command(
        "not a special command",
        &mut buffer,
        &mut multiline,
        &mut stdout,
        |_| Ok(()),
        &interpreter,
    )
    .unwrap();

    assert!(!should_exit);
    let output = stdout;
    assert!(output.is_empty()); // No output for non-special commands
}

#[test]
fn lib_test_test_process_multiline_input_empty_buffer_empty_line() {
    let mut buffer = Vec::new();
    let command = process_multiline_input("".to_string(), &mut buffer, |_| Ok(())).unwrap();
    assert!(command.is_none());
    assert!(buffer.is_empty());
}

#[test]
fn test_process_multiline_input_empty_buffer_nonempty_line() {
    let mut buffer = Vec::new();
    let command = process_multiline_input("line1".to_string(), &mut buffer, |_| Ok(())).unwrap();
    assert!(command.is_none());
    assert_eq!(buffer, vec!["line1".to_string()]);
}

#[test]
fn test_process_multiline_input_nonempty_buffer_nonempty_line() {
    let mut buffer = vec!["line1".to_string()];
    let command = process_multiline_input("line2".to_string(), &mut buffer, |_| Ok(())).unwrap();
    assert!(command.is_none());
    assert_eq!(buffer, vec!["line1".to_string(), "line2".to_string()]);
}

#[test]
fn test_process_multiline_input_nonempty_buffer_empty_line() {
    let mut buffer = vec!["line1".to_string(), "line2".to_string()];
    let command = process_multiline_input("".to_string(), &mut buffer, |_| Ok(())).unwrap();
    assert_eq!(command, Some("line1\nline2".to_string()));
    assert!(buffer.is_empty());
}

#[test]
fn test_process_single_line_input_empty_line() {
    let mut buffer = Vec::new();
    let mut multiline = false;
    let command =
        process_single_line_input("".to_string(), &mut buffer, &mut multiline, |_| Ok(())).unwrap();
    assert!(command.is_none());
    assert!(buffer.is_empty());
    assert!(!multiline);
}

#[test]
fn test_process_single_line_input_complete_line() {
    let mut buffer = Vec::new();
    let mut multiline = false;
    let command =
        process_single_line_input("1 + 2".to_string(), &mut buffer, &mut multiline, |_| Ok(()))
            .unwrap();
    assert_eq!(command, Some("1 + 2".to_string()));
    assert!(buffer.is_empty());
    assert!(!multiline);
}

#[test]
fn test_process_single_line_input_incomplete_line() {
    let mut buffer = Vec::new();
    let mut multiline = false;
    let command = process_single_line_input(
        "new x in {".to_string(),
        &mut buffer,
        &mut multiline,
        |_| Ok(()),
    )
    .unwrap();
    assert!(command.is_none());
    assert_eq!(buffer, vec!["new x in {".to_string()]);
    assert!(multiline);
}

#[test]
fn test_handle_interrupt() {
    let mut buffer = vec!["line1".to_string(), "line2".to_string()];
    let multiline = true;
    let mut stdout = String::new();
    let interpreter = MockInterpreterProvider::with_processes(vec![
        (1, "process1".to_string()),
        (2, "process2".to_string()),
    ]);

    handle_interrupt(&mut buffer, multiline, &mut stdout, |_| Ok(()), &interpreter).unwrap();

    assert!(buffer.is_empty()); // Buffer should be cleared in multiline mode
    let output = stdout;
    assert!(output.contains("Killed 2 running processes"));
    assert!(output.contains("Input interrupted with Ctrl+C"));
}

#[test]
fn lib_test_test_handle_interrupt_single_line() {
    let mut buffer = vec!["line1".to_string(), "line2".to_string()];
    let multiline = false;
    let mut stdout = String::new();
    let interpreter = MockInterpreterProvider::with_processes(vec![
        (1, "process1".to_string()),
        (2, "process2".to_string()),
    ]);

    handle_interrupt(&mut buffer, multiline, &mut stdout, |_| Ok(()), &interpreter).unwrap();

    assert_eq!(buffer, vec!["line1".to_string(), "line2".to_string()]); // Buffer should not be cleared in single line mode
    let output = stdout;
    assert!(output.contains("Killed 2 running processes"));
    assert!(output.contains("Input interrupted with Ctrl+C"));
}

#[test]
fn test_args() {
    let args = Args { multiline: true };
    assert!(args.multiline);

    let args = Args { multiline: false };
    assert!(!args.multiline);
}

#[test]
fn test_args_creation() {
    let args = Args { multiline: true };
    assert!(args.multiline);
}
