//! Gathering the lines of a command that ends with an empty line.
use vstd::prelude::*;
use vstd::string::StringExecFns;
use crate::text::{contains_text, str_contains, trim_end, trim_end_matches};

verus! {

/// Whether `s` holds two line breaks in a row.
pub fn has_double_newline(s: &str) -> (r: bool)
    ensures
        r == contains_text(s@, seq!['\n', '\n']),
{
    proof {
        reveal_strlit("\n\n");
        assert("\n\n"@ =~= seq!['\n', '\n']);
    }
    str_contains(s, "\n\n")
}

/// The buffer after `line` has been added to it: after a line break, unless
/// the buffer was empty.
pub open spec fn extended(buffer: Seq<char>, line: Seq<char>) -> Seq<char> {
    if buffer.len() == 0 {
        line
    } else {
        buffer + seq!['\n'] + line
    }
}

/// Whether the command in the buffer is complete once `line` has been added:
/// the line is empty, lines are being gathered, and the buffer then holds an
/// empty line, that is two line breaks in a row.
pub open spec fn completes(buffer: Seq<char>, line: Seq<char>, in_multiline_mode: bool) -> bool {
    in_multiline_mode && line.len() == 0 && contains_text(extended(buffer, line), seq!['\n', '\n'])
}

/// Adds a line of input to the buffer and says whether the command is ready
/// to run.
///
/// An empty line outside of multiline mode starts multiline mode. An empty
/// line in multiline mode completes the command once the buffer holds an
/// empty line: the line breaks at the end are taken off and multiline mode
/// ends.
pub fn process_line(line: &str, buffer: &mut String, in_multiline_mode: &mut bool) -> (ready: bool)
    ensures
        ready == completes(old(buffer)@, line@, *old(in_multiline_mode)),
        final(buffer)@ == (if ready {
            trim_end(extended(old(buffer)@, line@), '\n')
        } else {
            extended(old(buffer)@, line@)
        }),
        *final(in_multiline_mode) == (if ready {
            false
        } else {
            *old(in_multiline_mode) || line@.len() == 0
        }),
{
    let ghost before = buffer@;
    proof {
        reveal_strlit("\n");
        reveal_strlit("\n\n");
        assert("\n"@ =~= seq!['\n']);
        assert("\n\n"@ =~= seq!['\n', '\n']);
    }
    if !buffer.as_str().is_empty() {
        buffer.append("\n");
    }
    buffer.append(line);
    proof {
        assert(buffer@ =~= extended(before, line@));
    }
    if !*in_multiline_mode && line.is_empty() {
        *in_multiline_mode = true;
        false
    } else if *in_multiline_mode && line.is_empty() && has_double_newline(buffer.as_str()) {
        let trimmed = String::from_str(trim_end_matches(buffer.as_str(), '\n'));
        *buffer = trimmed;
        *in_multiline_mode = false;
        true
    } else {
        false
    }
}

} // verus!
