//! The line handling of an interactive shell: special commands, the
//! gathering of multiline input, and what an interrupt does.
//!
//! Each function here is one step of the shell. It is handed the state of
//! the shell, reads and writes nothing by itself, and says what the state is
//! afterwards and what was written. What only the outside can do — show a new
//! prompt, end a run of the interpreter — comes in as a closure or through
//! `InterpreterProvider`; the contracts say what a step makes of whatever
//! answer comes back.
use vstd::prelude::*;
use vstd::string::{StrSliceExecFns, StringExecFns};
use bracket_parser::{BracketParser, BracketState};
use crate::shell::providers::InterpreterProvider;
use crate::text::{
    debug_lines, debug_text, decimal, has_prefix, join, joined, lines_view, parse_usize,
    parsed_usize, str_eq, str_starts_with, trim, trim_space, usize_to_string,
};

pub mod interpreter;
pub mod multiline_helper;
pub mod process_table;
pub mod providers;

verus! {

/// The options of the shell.
#[derive(Debug, Clone, Copy, PartialEq, Eq, Structural)]
pub struct Args {
    /// Start in multiline mode.
    pub multiline: bool,
}

/// The help text.
pub open spec fn help_text() -> Seq<char> {
    "Available commands:\n  .help, - Show this help message\n  .mode - Toggle between multiline and single line modes\n  .list - List all edited lines\n  .delete or .del - Remove the last edited line\n  .reset or Ctrl+C - Interrupt current input (in multiline mode: clear buffer)\n  .ps - List all running processes\n  .kill <index> - Kill a running process by index\n  .quit - Exit the shell"@
}

/// The help text.
pub fn help_message() -> (r: String)
    ensures
        r@ == help_text(),
{
    String::from_str(
        "Available commands:\n  .help, - Show this help message\n  .mode - Toggle between multiline and single line modes\n  .list - List all edited lines\n  .delete or .del - Remove the last edited line\n  .reset or Ctrl+C - Interrupt current input (in multiline mode: clear buffer)\n  .ps - List all running processes\n  .kill <index> - Kill a running process by index\n  .quit - Exit the shell",
    )
}

// ---------------------------------------------------------------------------
// Reports on what the interpreter answered
// ---------------------------------------------------------------------------

/// What the shell writes after it asked to end the run `pid`.
pub open spec fn kill_report_text(pid: usize, outcome: Result<bool, String>) -> Seq<char> {
    match outcome {
        Ok(true) => "Process "@ + decimal(pid as nat) + " killed successfully\n"@,
        Ok(false) => "Process "@ + decimal(pid as nat) + " not found\n"@,
        Err(e) => "Error killing process "@ + decimal(pid as nat) + ": "@ + e@ + "\n"@,
    }
}

/// What the shell writes after it asked to end the run `pid`.
pub fn kill_report(pid: usize, outcome: &Result<bool, String>) -> (r: String)
    ensures
        r@ == kill_report_text(pid, *outcome),
{
    let number = usize_to_string(pid);
    match outcome {
        Ok(true) => {
            let mut out = String::from_str("Process ");
            out.append(number.as_str());
            out.append(" killed successfully\n");
            out
        },
        Ok(false) => {
            let mut out = String::from_str("Process ");
            out.append(number.as_str());
            out.append(" not found\n");
            out
        },
        Err(e) => {
            let mut out = String::from_str("Error killing process ");
            out.append(number.as_str());
            out.append(": ");
            out.append(e.as_str());
            out.append("\n");
            out
        },
    }
}

/// One line for each of `processes[from..]`: two blanks, the number, a
/// colon, the code.
pub open spec fn process_lines(processes: Seq<(usize, String)>, from: int) -> Seq<char>
    decreases processes.len() - from,
{
    if from < 0 || from >= processes.len() {
        Seq::empty()
    } else {
        "  "@ + decimal(processes[from].0 as nat) + ": "@ + processes[from].1@ + "\n"@ + process_lines(
            processes,
            from + 1,
        )
    }
}

/// What the shell writes after it asked for the runs that have not ended.
pub open spec fn ps_report_text(outcome: Result<Vec<(usize, String)>, String>) -> Seq<char> {
    match outcome {
        Ok(processes) => if processes@.len() == 0 {
            "No running processes\n"@
        } else {
            "Running processes:\n"@ + process_lines(processes@, 0)
        },
        Err(e) => "Error listing processes: "@ + e@ + "\n"@,
    }
}

/// What the shell writes after it asked for the runs that have not ended.
pub fn ps_report(outcome: &Result<Vec<(usize, String)>, String>) -> (r: String)
    ensures
        r@ == ps_report_text(*outcome),
{
    match outcome {
        Ok(processes) => {
            if processes.len() == 0 {
                String::from_str("No running processes\n")
            } else {
                let mut out = String::from_str("Running processes:\n");
                let ghost head = out@;
                let mut i: usize = 0;
                proof {
                    assert(head + process_lines(processes@, 0) =~= out@ + process_lines(
                        processes@,
                        0,
                    ));
                }
                while i < processes.len()
                    invariant
                        i <= processes@.len(),
                        head + process_lines(processes@, 0) == out@ + process_lines(
                            processes@,
                            i as int,
                        ),
                    decreases processes@.len() - i,
                {
                    let ghost before = out@;
                    let number = usize_to_string(processes[i].0);
                    out.append("  ");
                    out.append(number.as_str());
                    out.append(": ");
                    out.append(processes[i].1.as_str());
                    out.append("\n");
                    proof {
                        let line = "  "@ + decimal(processes@[i as int].0 as nat) + ": "@
                            + processes@[i as int].1@ + "\n"@;
                        assert(out@ =~= before + line);
                        assert(before + (line + process_lines(processes@, i + 1)) =~= (before
                            + line) + process_lines(processes@, i + 1));
                    }
                    i += 1;
                }
                proof {
                    assert(out@ + Seq::<char>::empty() =~= out@);
                }
                out
            }
        },
        Err(e) => {
            let mut out = String::from_str("Error listing processes: ");
            out.append(e.as_str());
            out.append("\n");
            out
        },
    }
}

/// What the shell writes on an interrupt, after it asked to end every run.
pub open spec fn interrupt_report_text(outcome: Result<usize, String>) -> Seq<char> {
    (match outcome {
        Ok(count) => if count > 0 {
            "Killed "@ + decimal(count as nat) + " running processes\n"@
        } else {
            Seq::empty()
        },
        Err(e) => "Error killing processes: "@ + e@ + "\n"@,
    }) + "Input interrupted with Ctrl+C\n"@
}

/// What the shell writes on an interrupt, after it asked to end every run.
pub fn interrupt_report(outcome: &Result<usize, String>) -> (r: String)
    ensures
        r@ == interrupt_report_text(*outcome),
{
    let mut out = String::new();
    match outcome {
        Ok(count) => {
            if *count > 0 {
                let number = usize_to_string(*count);
                out.append("Killed ");
                out.append(number.as_str());
                out.append(" running processes\n");
                assert(out@ =~= "Killed "@ + decimal(*count as nat) + " running processes\n"@);
            }
        },
        Err(e) => {
            out.append("Error killing processes: ");
            out.append(e.as_str());
            out.append("\n");
            assert(out@ =~= "Error killing processes: "@ + e@ + "\n"@);
        },
    }
    out.append("Input interrupted with Ctrl+C\n");
    out
}

// ---------------------------------------------------------------------------
// Special commands
// ---------------------------------------------------------------------------

/// The state of the shell that its steps read and change.
pub ghost struct ShellState {
    /// The lines gathered so far.
    pub buffer: Seq<Seq<char>>,
    /// Whether lines are gathered until an empty one comes.
    pub multiline: bool,
    /// Everything written so far.
    pub output: Seq<char>,
}

/// What the outside answered during one step.
pub ghost enum Answer {
    /// Nothing was asked.
    Silent,
    /// A new prompt was asked for.
    Prompt(Result<(), String>),
    /// The interpreter was asked to end a run.
    Killed(Result<bool, String>),
    /// The interpreter was asked for its runs.
    Listed(Result<Vec<(usize, String)>, String>),
}

/// What a special command asks of the outside.
pub ghost enum Ask {
    Nothing,
    Prompt,
    Kill(usize),
    List,
}

/// Whether `command` is a special command: it begins with a dot.
pub open spec fn is_special(command: Seq<char>) -> bool {
    has_prefix(command, "."@)
}

/// What follows `.kill ` in a command.
pub open spec fn kill_argument(command: Seq<char>) -> Seq<char> {
    command.skip(".kill "@.len() as int)
}

/// What `command` asks of the outside in the state `before`.
pub open spec fn special_ask(command: Seq<char>, before: ShellState) -> Ask {
    if !is_special(command) {
        Ask::Nothing
    } else if has_prefix(command, ".kill "@) {
        match parsed_usize(trim_space(kill_argument(command))) {
            Some(pid) => Ask::Kill(pid),
            None => Ask::Nothing,
        }
    } else if command == ".help"@ {
        Ask::Nothing
    } else if command == ".mode"@ {
        if before.multiline {
            Ask::Prompt
        } else {
            Ask::Nothing
        }
    } else if command == ".quit"@ || command == ".list"@ || command == ".delete"@ || command
        == ".del"@ {
        Ask::Nothing
    } else if command == ".reset"@ {
        Ask::Prompt
    } else if command == ".buffer"@ {
        Ask::Nothing
    } else if command == ".ps"@ {
        Ask::List
    } else {
        Ask::Nothing
    }
}

/// Each line of `lines[from..]` followed by a line break.
pub open spec fn listed(lines: Seq<Seq<char>>, from: int) -> Seq<char>
    decreases lines.len() - from,
{
    if from < 0 || from >= lines.len() {
        Seq::empty()
    } else {
        lines[from] + "\n"@ + listed(lines, from + 1)
    }
}

/// The state with `text` written.
pub open spec fn wrote(state: ShellState, text: Seq<char>) -> ShellState {
    ShellState { buffer: state.buffer, multiline: state.multiline, output: state.output + text }
}

/// What a special command does: the state afterwards, and whether the shell
/// is to exit, or the error that the outside answered with.
///
/// A text that does not begin with a dot is no special command and changes
/// nothing. `.kill <n>` asks the interpreter to end run `n` and reports the
/// answer. `.help` writes the help text. `.mode` switches between multiline
/// and single line mode; back in single line mode the buffer is cleared and a
/// fresh prompt shown. `.quit` asks the shell to exit. `.list` writes the
/// buffer line by line, `.buffer` writes it as a list. `.delete` and `.del`
/// take the last line off the buffer. `.reset` clears the buffer and shows a
/// fresh prompt. `.ps` reports the runs of the interpreter. Anything else is
/// reported as unknown.
pub open spec fn special_step(command: Seq<char>, before: ShellState, answer: Answer) -> (
    ShellState,
    Result<bool, Seq<char>>,
) {
    if !is_special(command) {
        (before, Ok(false))
    } else if has_prefix(command, ".kill "@) {
        match parsed_usize(trim_space(kill_argument(command))) {
            Some(pid) => (wrote(before, kill_report_text(pid, answer->Killed_0)), Ok(false)),
            None => (
                wrote(before, "Invalid process ID: "@ + kill_argument(command) + "\n"@),
                Ok(false),
            ),
        }
    } else if command == ".help"@ {
        (wrote(before, help_text() + "\n"@), Ok(false))
    } else if command == ".mode"@ {
        if !before.multiline {
            (
                ShellState {
                    buffer: before.buffer,
                    multiline: true,
                    output: before.output
                        + "Switched to multiline mode (enter twice to execute)\n"@,
                },
                Ok(false),
            )
        } else {
            match answer->Prompt_0 {
                Ok(_) => (
                    ShellState {
                        buffer: Seq::empty(),
                        multiline: false,
                        output: before.output + "Switched to single line mode\n"@,
                    },
                    Ok(false),
                ),
                Err(e) => (
                    ShellState { buffer: Seq::empty(), multiline: false, output: before.output },
                    Err(e@),
                ),
            }
        }
    } else if command == ".quit"@ {
        (wrote(before, "Exiting shell...\n"@), Ok(true))
    } else if command == ".list"@ {
        (wrote(before, "Edited lines:\n"@ + listed(before.buffer, 0)), Ok(false))
    } else if command == ".delete"@ || command == ".del"@ {
        if before.buffer.len() > 0 {
            (
                ShellState {
                    buffer: before.buffer.drop_last(),
                    multiline: before.multiline,
                    output: before.output + "Removed last line: "@ + before.buffer.last() + "\n"@,
                },
                Ok(false),
            )
        } else {
            (wrote(before, "Buffer is empty, nothing to delete\n"@), Ok(false))
        }
    } else if command == ".reset"@ {
        match answer->Prompt_0 {
            Ok(_) => (
                ShellState {
                    buffer: Seq::empty(),
                    multiline: before.multiline,
                    output: before.output + "Buffer reset\n"@,
                },
                Ok(false),
            ),
            Err(e) => (
                ShellState {
                    buffer: Seq::empty(),
                    multiline: before.multiline,
                    output: before.output,
                },
                Err(e@),
            ),
        }
    } else if command == ".buffer"@ {
        (wrote(before, "Current buffer: "@ + debug_text(before.buffer) + "\n"@), Ok(false))
    } else if command == ".ps"@ {
        (wrote(before, ps_report_text(answer->Listed_0)), Ok(false))
    } else {
        (wrote(before, "Unknown command: "@ + command + "\n"@), Ok(false))
    }
}

/// Whether `answer` is an answer to what was asked, and, for a prompt, one
/// that `update_prompt` can give for the prompt `prompt`.
pub open spec fn answers<F: FnOnce(&str) -> Result<(), String>>(
    ask: Ask,
    answer: Answer,
    update_prompt: F,
    prompt: &str,
) -> bool {
    match ask {
        Ask::Nothing => answer is Silent,
        Ask::Prompt => answer matches Answer::Prompt(p) && update_prompt.ensures((prompt,), p),
        Ask::Kill(_) => answer is Killed,
        Ask::List => answer is Listed,
    }
}

/// Whether the special command `command` leads from `before` to `after` with
/// the result `r` when the outside answers with `answer`.
pub open spec fn special_done<F: FnOnce(&str) -> Result<(), String>>(
    command: Seq<char>,
    before: ShellState,
    after: ShellState,
    r: Result<bool, Seq<char>>,
    answer: Answer,
    update_prompt: F,
) -> bool {
    &&& answers(special_ask(command, before), answer, update_prompt, ">>> ")
    &&& (after, r) == special_step(command, before, answer)
}

/// The exit flag or the error of a step, as plain values.
pub open spec fn flag_view(r: Result<bool, String>) -> Result<bool, Seq<char>> {
    match r {
        Ok(b) => Ok(b),
        Err(e) => Err(e@),
    }
}

/// Writes to `stdout` each line of `lines` followed by a line break.
fn write_lines(lines: &Vec<String>, stdout: &mut String)
    ensures
        final(stdout)@ == old(stdout)@ + listed(lines_view(lines@), 0),
{
    let ghost before = stdout@;
    let ghost all = lines_view(lines@);
    let mut i: usize = 0;
    proof {
        assert(before + listed(all, 0) =~= stdout@ + listed(all, 0));
    }
    while i < lines.len()
        invariant
            i <= lines@.len(),
            all == lines_view(lines@),
            before + listed(all, 0) == stdout@ + listed(all, i as int),
        decreases lines@.len() - i,
    {
        let ghost so_far = stdout@;
        stdout.append(lines[i].as_str());
        stdout.append("\n");
        proof {
            let line = all[i as int] + "\n"@;
            assert(stdout@ =~= so_far + line);
            assert(so_far + (line + listed(all, i + 1)) =~= (so_far + line) + listed(all, i + 1));
        }
        i += 1;
    }
    proof {
        assert(stdout@ + Seq::<char>::empty() =~= stdout@);
    }
}

/// Handles a special command, one that begins with a dot, and says whether
/// the shell is to exit. Any other text is left alone.
#[verifier::rlimit(40)]
pub fn process_special_command<I: InterpreterProvider, F: FnOnce(&str) -> Result<(), String>>(
    command: &str,
    buffer: &mut Vec<String>,
    multiline: &mut bool,
    stdout: &mut String,
    update_prompt: F,
    interpreter: &I,
) -> (r: Result<bool, String>)
    requires
        forall|prompt: &str| update_prompt.requires((prompt,)),
    ensures
        exists|answer: Answer| #[trigger]
            special_done(
                command@,
                ShellState {
                    buffer: lines_view(old(buffer)@),
                    multiline: *old(multiline),
                    output: old(stdout)@,
                },
                ShellState {
                    buffer: lines_view(final(buffer)@),
                    multiline: *final(multiline),
                    output: final(stdout)@,
                },
                flag_view(r),
                answer,
                update_prompt,
            ),
{
    let ghost before = ShellState {
        buffer: lines_view(buffer@),
        multiline: *multiline,
        output: stdout@,
    };
    let ghost ask = special_ask(command@, before);
    if !str_starts_with(command, ".") {
        proof {
            let after = ShellState {
                buffer: lines_view(buffer@),
                multiline: *multiline,
                output: stdout@,
            };
            assert(special_done(command@, before, after, flag_view(Ok(false)), Answer::Silent, update_prompt));
        }
        return Ok(false);
    }
    if str_starts_with(command, ".kill ") {
        proof {
            reveal_strlit(".kill ");
        }
        let rest = command.substring_char(6, command.unicode_len());
        match parse_usize(trim(rest)) {
            Some(pid) => {
                let outcome = interpreter.kill_process(pid);
                let report = kill_report(pid, &outcome);
                stdout.append(report.as_str());
                proof {
                    let after = ShellState {
                        buffer: lines_view(buffer@),
                        multiline: *multiline,
                        output: stdout@,
                    };
                    assert(special_done(command@, before, after, flag_view(Ok(false)), Answer::Killed(outcome), update_prompt));
                }
                return Ok(false);
            },
            None => {
                stdout.append("Invalid process ID: ");
                stdout.append(rest);
                stdout.append("\n");
                proof {
                    let after = ShellState {
                        buffer: lines_view(buffer@),
                        multiline: *multiline,
                        output: stdout@,
                    };
                    assert(after.output =~= before.output + ("Invalid process ID: "@
                        + kill_argument(command@) + "\n"@));
                    assert(special_done(command@, before, after, flag_view(Ok(false)), Answer::Silent, update_prompt));
                }
                return Ok(false);
            },
        }
    }
    let ghost mut answer = Answer::Silent;
    let mut exit = false;
    if str_eq(command, ".help") {
        let help = help_message();
        stdout.append(help.as_str());
        stdout.append("\n");
        proof {
            assert(stdout@ =~= before.output + (help_text() + "\n"@));
        }
    } else if str_eq(command, ".mode") {
        *multiline = !*multiline;
        if *multiline {
            stdout.append("Switched to multiline mode (enter twice to execute)\n");
        } else {
            buffer.clear();
            proof {
                assert(lines_view(buffer@) =~= Seq::<Seq<char>>::empty());
            }
            let shown = update_prompt(">>> ");
            proof {
                answer = Answer::Prompt(shown);
            }
            match shown {
                Ok(_) => {},
                Err(e) => {
                    proof {
                        let after = ShellState {
                            buffer: lines_view(buffer@),
                            multiline: *multiline,
                            output: stdout@,
                        };
                        assert(special_done(command@, before, after, flag_view(Err(e)), answer, update_prompt));
                    }
                    return Err(e);
                },
            }
            stdout.append("Switched to single line mode\n");
        }
    } else if str_eq(command, ".quit") {
        stdout.append("Exiting shell...\n");
        exit = true;
    } else if str_eq(command, ".list") {
        stdout.append("Edited lines:\n");
        write_lines(buffer, stdout);
        proof {
            assert(stdout@ =~= before.output + ("Edited lines:\n"@ + listed(before.buffer, 0)));
        }
    } else if str_eq(command, ".delete") || str_eq(command, ".del") {
        match buffer.pop() {
            Some(removed) => {
                stdout.append("Removed last line: ");
                stdout.append(removed.as_str());
                stdout.append("\n");
                proof {
                    assert(lines_view(buffer@) =~= before.buffer.drop_last());
                    assert(removed@ == before.buffer.last());
                }
            },
            None => {
                stdout.append("Buffer is empty, nothing to delete\n");
            },
        }
    } else if str_eq(command, ".reset") {
        buffer.clear();
        proof {
            assert(lines_view(buffer@) =~= Seq::<Seq<char>>::empty());
        }
        let shown = update_prompt(">>> ");
        proof {
            answer = Answer::Prompt(shown);
        }
        match shown {
            Ok(_) => {},
            Err(e) => {
                proof {
                    let after = ShellState {
                        buffer: lines_view(buffer@),
                        multiline: *multiline,
                        output: stdout@,
                    };
                    assert(special_done(command@, before, after, flag_view(Err(e)), answer, update_prompt));
                }
                return Err(e);
            },
        }
        stdout.append("Buffer reset\n");
    } else if str_eq(command, ".buffer") {
        let dump = debug_lines(buffer);
        stdout.append("Current buffer: ");
        stdout.append(dump.as_str());
        stdout.append("\n");
        proof {
            assert(stdout@ =~= before.output + ("Current buffer: "@ + debug_text(before.buffer)
                + "\n"@));
        }
    } else if str_eq(command, ".ps") {
        let outcome = interpreter.list_processes();
        let report = ps_report(&outcome);
        stdout.append(report.as_str());
        proof {
            answer = Answer::Listed(outcome);
        }
    } else {
        stdout.append("Unknown command: ");
        stdout.append(command);
        stdout.append("\n");
        proof {
            assert(stdout@ =~= before.output + ("Unknown command: "@ + command@ + "\n"@));
        }
    }
    proof {
        let after = ShellState {
            buffer: lines_view(buffer@),
            multiline: *multiline,
            output: stdout@,
        };
        assert(special_done(command@, before, after, flag_view(Ok(exit)), answer, update_prompt));
    }
    Ok(exit)
}

// ---------------------------------------------------------------------------
// Interrupts
// ---------------------------------------------------------------------------

/// What an interrupt does. In multiline mode the buffer is cleared and a
/// fresh prompt shown; if that fails, nothing more happens. Then every run of
/// the interpreter is ended and the answer reported.
pub open spec fn interrupt_step(
    before: ShellState,
    shown: Result<(), String>,
    killed: Result<usize, String>,
) -> (ShellState, Result<(), Seq<char>>) {
    if before.multiline && shown is Err {
        (
            ShellState { buffer: Seq::empty(), multiline: true, output: before.output },
            Err(shown->Err_0@),
        )
    } else {
        (
            ShellState {
                buffer: if before.multiline {
                    Seq::empty()
                } else {
                    before.buffer
                },
                multiline: before.multiline,
                output: before.output + interrupt_report_text(killed),
            },
            Ok(()),
        )
    }
}

/// Whether an interrupt leads from `before` to `after` with the result `r`
/// when the prompt answers with `shown` and the interpreter with `killed`.
pub open spec fn interrupt_done<F: FnOnce(&str) -> Result<(), String>>(
    before: ShellState,
    after: ShellState,
    r: Result<(), Seq<char>>,
    shown: Result<(), String>,
    killed: Result<usize, String>,
    update_prompt: F,
) -> bool {
    &&& before.multiline ==> update_prompt.ensures((">>> ",), shown)
    &&& (after, r) == interrupt_step(before, shown, killed)
}

/// The result of a step without a value, as plain values.
pub open spec fn unit_view(r: Result<(), String>) -> Result<(), Seq<char>> {
    match r {
        Ok(_) => Ok(()),
        Err(e) => Err(e@),
    }
}

/// Handles an interrupt of the input.
pub fn handle_interrupt<I: InterpreterProvider, F: FnOnce(&str) -> Result<(), String>>(
    buffer: &mut Vec<String>,
    multiline: bool,
    stdout: &mut String,
    update_prompt: F,
    interpreter: &I,
) -> (r: Result<(), String>)
    requires
        forall|prompt: &str| update_prompt.requires((prompt,)),
    ensures
        exists|shown: Result<(), String>, killed: Result<usize, String>| #[trigger]
            interrupt_done(
                ShellState { buffer: lines_view(old(buffer)@), multiline, output: old(stdout)@ },
                ShellState { buffer: lines_view(final(buffer)@), multiline, output: final(stdout)@ },
                unit_view(r),
                shown,
                killed,
                update_prompt,
            ),
{
    let ghost before = ShellState { buffer: lines_view(buffer@), multiline, output: stdout@ };
    let ghost mut shown: Result<(), String> = Ok(());
    if multiline {
        buffer.clear();
        proof {
            assert(lines_view(buffer@) =~= Seq::<Seq<char>>::empty());
        }
        let answer = update_prompt(">>> ");
        proof {
            shown = answer;
        }
        match answer {
            Ok(_) => {},
            Err(e) => {
                proof {
                    let after = ShellState {
                        buffer: lines_view(buffer@),
                        multiline,
                        output: stdout@,
                    };
                    let killed: Result<usize, String> = Ok(0);
                    assert(interrupt_done(
                        before,
                        after,
                        unit_view(Err(e)),
                        shown,
                        killed,
                        update_prompt,
                    ));
                }
                return Err(e);
            },
        }
    }
    let killed = interpreter.kill_all_processes();
    let report = interrupt_report(&killed);
    stdout.append(report.as_str());
    proof {
        let after = ShellState { buffer: lines_view(buffer@), multiline, output: stdout@ };
        assert(interrupt_done(before, after, unit_view(Ok(())), shown, killed, update_prompt));
    }
    Ok(())
}

// ---------------------------------------------------------------------------
// Lines of input
// ---------------------------------------------------------------------------

/// A command that is ready to run, or none, or the error of a step, as plain
/// values.
pub open spec fn command_view(r: Result<Option<String>, String>) -> Result<
    Option<Seq<char>>,
    Seq<char>,
> {
    match r {
        Ok(Some(c)) => Ok(Some(c@)),
        Ok(None) => Ok(None),
        Err(e) => Err(e@),
    }
}

/// The prompt that a line of multiline input asks for, if any: `... ` when
/// the first line of a command comes in, `>>> ` when an empty line ends one.
pub open spec fn multiline_prompt(line: Seq<char>, buffer: Seq<Seq<char>>) -> Option<Seq<char>> {
    if buffer.len() == 0 {
        if line.len() == 0 {
            None
        } else {
            Some("... "@)
        }
    } else if line.len() > 0 {
        None
    } else {
        Some(">>> "@)
    }
}

/// What a line of input does in multiline mode: the buffer afterwards, and
/// the command that is ready to run, if any.
///
/// Lines are gathered in the buffer. An empty line ends the command: the
/// gathered lines, joined by line breaks, are handed out and the buffer is
/// cleared. An empty line with nothing gathered does nothing.
pub open spec fn multiline_step(line: Seq<char>, buffer: Seq<Seq<char>>, shown: Result<(), String>) -> (
    Seq<Seq<char>>,
    Result<Option<Seq<char>>, Seq<char>>,
) {
    if buffer.len() == 0 {
        if line.len() == 0 {
            (buffer, Ok(None))
        } else {
            (
                seq![line],
                match shown {
                    Ok(_) => Ok(None),
                    Err(e) => Err(e@),
                },
            )
        }
    } else if line.len() > 0 {
        (buffer.push(line), Ok(None))
    } else {
        (
            Seq::empty(),
            match shown {
                Ok(_) => Ok(Some(joined(buffer, "\n"@))),
                Err(e) => Err(e@),
            },
        )
    }
}

/// Whether a line of multiline input leads from the buffer `before` to
/// `after` with the result `r` when the prompt answers with `shown`.
pub open spec fn multiline_done<F: FnOnce(&str) -> Result<(), String>>(
    line: Seq<char>,
    before: Seq<Seq<char>>,
    after: Seq<Seq<char>>,
    r: Result<Option<Seq<char>>, Seq<char>>,
    shown: Result<(), String>,
    update_prompt: F,
) -> bool {
    &&& multiline_prompt(line, before) matches Some(p) ==> exists|prompt: &str|
        prompt@ == p && #[trigger] update_prompt.ensures((prompt,), shown)
    &&& (after, r) == multiline_step(line, before, shown)
}

/// Handles a line of input in multiline mode.
pub fn process_multiline_input<F: FnOnce(&str) -> Result<(), String>>(
    line: String,
    buffer: &mut Vec<String>,
    update_prompt: F,
) -> (r: Result<Option<String>, String>)
    requires
        forall|prompt: &str| update_prompt.requires((prompt,)),
    ensures
        exists|shown: Result<(), String>| #[trigger]
            multiline_done(
                line@,
                lines_view(old(buffer)@),
                lines_view(final(buffer)@),
                command_view(r),
                shown,
                update_prompt,
            ),
{
    let ghost before = lines_view(buffer@);
    let ghost text = line@;
    if buffer.len() == 0 {
        if line.as_str().is_empty() {
            proof {
                let shown: Result<(), String> = Ok(());
                assert(multiline_done(
                    text,
                    before,
                    lines_view(buffer@),
                    command_view(Ok(None)),
                    shown,
                    update_prompt,
                ));
            }
            return Ok(None);
        }
        buffer.push(line);
        proof {
            assert(lines_view(buffer@) =~= seq![text]);
        }
        let shown = update_prompt("... ");
        let r = match shown {
            Ok(_) => Ok(None),
            Err(e) => Err(e),
        };
        proof {
            assert(update_prompt.ensures(("... ",), shown));
            assert(multiline_done(
                text,
                before,
                lines_view(buffer@),
                command_view(r),
                shown,
                update_prompt,
            ));
        }
        return r;
    }
    if !line.as_str().is_empty() {
        buffer.push(line);
        proof {
            let shown: Result<(), String> = Ok(());
            assert(lines_view(buffer@) =~= before.push(text));
            assert(multiline_done(
                text,
                before,
                lines_view(buffer@),
                command_view(Ok(None)),
                shown,
                update_prompt,
            ));
        }
        return Ok(None);
    }
    let command = join(buffer, "\n");
    buffer.clear();
    proof {
        assert(lines_view(buffer@) =~= Seq::<Seq<char>>::empty());
    }
    let shown = update_prompt(">>> ");
    let r = match shown {
        Ok(_) => Ok(Some(command)),
        Err(e) => Err(e),
    };
    proof {
        assert(update_prompt.ensures((">>> ",), shown));
        assert(multiline_done(
            text,
            before,
            lines_view(buffer@),
            command_view(r),
            shown,
            update_prompt,
        ));
    }
    r
}

/// `bracket_parser::BracketParser`, which tells whether a place in a text
/// lies inside brackets.
#[verifier::external_type_specification]
#[verifier::external_body]
pub struct ExBracketParser(BracketParser);

/// Whether the end of `line` lies inside a pair of brackets that is still
/// open, as `BracketParser::get_final_state` tells.
pub uninterp spec fn ends_inside_brackets(line: Seq<char>) -> bool;

/// Makes a bracket parser with `BracketParser::new`, which fails where the
/// grammar of the parser cannot be loaded.
#[verifier::external_body]
fn new_bracket_parser() -> (r: Option<BracketParser>) {
    match BracketParser::new() {
        Ok(parser) => Some(parser),
        Err(_) => None,
    }
}

/// Asks `BracketParser::get_final_state` whether the end of `line` lies
/// inside brackets.
#[verifier::external_body]
fn final_state_inside(parser: &mut BracketParser, line: &str) -> (r: bool)
    ensures
        r == ends_inside_brackets(line@),
{
    match parser.get_final_state(line) {
        BracketState::Inside => true,
        BracketState::Outside => false,
    }
}

/// What a line of input does in single line mode, given whether its end lies
/// inside brackets: `None` where that could not be found out.
///
/// An empty line does nothing. A line that ends inside brackets is the first
/// line of a longer command: it goes to the buffer and the shell switches to
/// multiline mode. Any other line is ready to run.
pub open spec fn single_line_step(
    line: Seq<char>,
    inside: Option<bool>,
    before: ShellState,
    shown: Result<(), String>,
) -> (ShellState, Result<Option<Seq<char>>, Seq<char>>) {
    if line.len() == 0 {
        (before, Ok(None))
    } else if inside == Some(true) {
        (
            ShellState {
                buffer: before.buffer.push(line),
                multiline: true,
                output: before.output,
            },
            match shown {
                Ok(_) => Ok(None),
                Err(e) => Err(e@),
            },
        )
    } else {
        (before, Ok(Some(line)))
    }
}

/// Whether a line of single line input leads from `before` to `after` with
/// the result `r` when the prompt answers with `shown`.
pub open spec fn single_line_done<F: FnOnce(&str) -> Result<(), String>>(
    line: Seq<char>,
    inside: Option<bool>,
    before: ShellState,
    after: ShellState,
    r: Result<Option<Seq<char>>, Seq<char>>,
    shown: Result<(), String>,
    update_prompt: F,
) -> bool {
    &&& (line.len() > 0 && inside == Some(true)) ==> update_prompt.ensures(("... ",), shown)
    &&& (after, r) == single_line_step(line, inside, before, shown)
}

/// Handles a line of input in single line mode, given whether its end lies
/// inside brackets.
pub fn process_classified_line<F: FnOnce(&str) -> Result<(), String>>(
    line: String,
    inside: Option<bool>,
    buffer: &mut Vec<String>,
    multiline: &mut bool,
    update_prompt: F,
) -> (r: Result<Option<String>, String>)
    requires
        forall|prompt: &str| update_prompt.requires((prompt,)),
    ensures
        exists|shown: Result<(), String>| #[trigger]
            single_line_done(
                line@,
                inside,
                ShellState {
                    buffer: lines_view(old(buffer)@),
                    multiline: *old(multiline),
                    output: Seq::empty(),
                },
                ShellState {
                    buffer: lines_view(final(buffer)@),
                    multiline: *final(multiline),
                    output: Seq::empty(),
                },
                command_view(r),
                shown,
                update_prompt,
            ),
{
    let ghost before = ShellState {
        buffer: lines_view(buffer@),
        multiline: *multiline,
        output: Seq::empty(),
    };
    let ghost text = line@;
    let ends_inside = match inside {
        Some(true) => true,
        _ => false,
    };
    if line.as_str().is_empty() || !ends_inside {
        let r = if line.as_str().is_empty() {
            Ok(None)
        } else {
            Ok(Some(line))
        };
        proof {
            let shown: Result<(), String> = Ok(());
            let after = ShellState {
                buffer: lines_view(buffer@),
                multiline: *multiline,
                output: Seq::empty(),
            };
            assert(single_line_done(
                text,
                inside,
                before,
                after,
                command_view(r),
                shown,
                update_prompt,
            ));
        }
        return r;
    }
    *multiline = true;
    buffer.push(line);
    proof {
        assert(lines_view(buffer@) =~= before.buffer.push(text));
    }
    let shown = update_prompt("... ");
    let r = match shown {
        Ok(_) => Ok(None),
        Err(e) => Err(e),
    };
    proof {
        let after = ShellState {
            buffer: lines_view(buffer@),
            multiline: *multiline,
            output: Seq::empty(),
        };
        assert(single_line_done(text, inside, before, after, command_view(r), shown, update_prompt));
    }
    r
}

/// Handles a line of input in single line mode: an empty line does nothing, a
/// line that ends inside brackets starts a multiline command, any other line
/// is ready to run. Where the bracket parser cannot be had, every line that
/// is not empty is taken as ready to run.
pub fn process_single_line_input<F: FnOnce(&str) -> Result<(), String>>(
    line: String,
    buffer: &mut Vec<String>,
    multiline: &mut bool,
    update_prompt: F,
) -> (r: Result<Option<String>, String>)
    requires
        forall|prompt: &str| update_prompt.requires((prompt,)),
    ensures
        exists|shown: Result<(), String>, inside: Option<bool>| #[trigger]
            single_line_done(
                line@,
                inside,
                ShellState {
                    buffer: lines_view(old(buffer)@),
                    multiline: *old(multiline),
                    output: Seq::empty(),
                },
                ShellState {
                    buffer: lines_view(final(buffer)@),
                    multiline: *final(multiline),
                    output: Seq::empty(),
                },
                command_view(r),
                shown,
                update_prompt,
            ) && (inside matches Some(i) ==> i == ends_inside_brackets(line@)),
{
    let inside = if line.as_str().is_empty() {
        None
    } else {
        match new_bracket_parser() {
            Some(mut parser) => Some(final_state_inside(&mut parser, line.as_str())),
            None => None,
        }
    };
    process_classified_line(line, inside, buffer, multiline, update_prompt)
}

} // verus!
