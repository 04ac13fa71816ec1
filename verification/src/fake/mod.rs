//! A stand-in interpreter for demonstrations: it checks that brackets are
//! balanced and answers with canned texts.
use vstd::prelude::*;
use vstd::string::{StrSliceExecFns, StringExecFns};
use crate::fake::errors::{InterpretationResult, InterpreterError};
use crate::fake::parser::{balanced, fails_on, succeeds_with, tree_text, RholangParser};
use crate::text::{
    chars_of, contains_text, find, first_match, has_prefix, last_index_of, lines_view,
    rfind_char, str_contains, str_eq, str_starts_with, trim, trim_space,
};

pub mod errors;
pub mod parser;
pub mod result;

verus! {

/// The text in a print statement that announces the message.
pub open spec fn print_mark() -> Seq<char> {
    "@\"stdout\"!("@
}

/// `message` without the double quotes around it, if it stands in double
/// quotes.
pub open spec fn unquoted(message: Seq<char>) -> Seq<char> {
    if message.len() >= 2 && message[0] == '"' && message.last() == '"' {
        message.subrange(1, message.len() - 1)
    } else {
        message
    }
}

/// The message of a print statement: what stands between the mark and the
/// last closing parenthesis, without double quotes around it.
pub open spec fn print_message(code: Seq<char>) -> Option<Seq<char>> {
    match first_match(code, print_mark(), 0) {
        Some(i) => {
            let start = i + print_mark().len();
            match last_index_of(code, ')', code.len() as int) {
                Some(end) => if end >= start {
                    Some(unquoted(code.subrange(start, end)))
                } else {
                    None
                },
                None => None,
            }
        },
        None => None,
    }
}

/// The name that a `new` declares: what stands between `new ` and ` in `.
pub open spec fn declared_name(code: Seq<char>) -> Option<Seq<char>> {
    match first_match(code, "new "@, 0) {
        Some(i) => {
            let start = i + "new "@.len();
            match first_match(code, " in "@, start) {
                Some(end) => Some(code.subrange(start, end)),
                None => None,
            }
        },
        None => None,
    }
}

/// The pattern of a for-comprehension: what stands between `for (` and the
/// next closing parenthesis.
pub open spec fn for_pattern(code: Seq<char>) -> Option<Seq<char>> {
    match first_match(code, "for ("@, 0) {
        Some(i) => {
            let start = i + "for ("@.len();
            match first_match(code, ")"@, start) {
                Some(end) => Some(code.subrange(start, end)),
                None => None,
            }
        },
        None => None,
    }
}

/// What a for-comprehension listens on, and under which name: the two sides
/// of the first arrow in its pattern, without white space around them. The
/// variable comes first.
pub open spec fn for_parts(code: Seq<char>) -> Option<(Seq<char>, Seq<char>)> {
    match for_pattern(code) {
        Some(pattern) => match first_match(pattern, "<-"@, 0) {
            Some(arrow) => Some(
                (
                    trim_space(pattern.subrange(0, arrow)),
                    trim_space(pattern.subrange(arrow + "<-"@.len(), pattern.len() as int)),
                ),
            ),
            None => None,
        },
        None => None,
    }
}

/// Whether `code` holds one of the four arithmetic operators.
pub open spec fn is_arithmetic(code: Seq<char>) -> bool {
    contains_text(code, "+"@) || contains_text(code, "-"@) || contains_text(code, "*"@)
        || contains_text(code, "/"@)
}

/// The sentence about an arithmetic expression, named after the first of
/// `+`, `-`, `*` and `/` that it holds.
pub open spec fn arithmetic_text(code: Seq<char>) -> Option<Seq<char>> {
    if contains_text(code, "+"@) {
        Some("Addition expression: "@ + code)
    } else if contains_text(code, "-"@) {
        Some("Subtraction expression: "@ + code)
    } else if contains_text(code, "*"@) {
        Some("Multiplication expression: "@ + code)
    } else if contains_text(code, "/"@) {
        Some("Division expression: "@ + code)
    } else {
        None
    }
}

/// The answer to `code` whose brackets balance and that has no white space
/// around it, as far as it is a canned text.
pub open spec fn canned(code: Seq<char>) -> Option<Seq<char>> {
    if has_prefix(code, "new "@) && contains_text(code, " in "@) {
        match declared_name(code) {
            Some(name) => Some("Created new name: "@ + name),
            None => None,
        }
    } else if has_prefix(code, "for ("@) && contains_text(code, "<-"@) {
        match for_parts(code) {
            Some((var, channel)) => Some(
                "Listening for messages on "@ + channel + " as "@ + var,
            ),
            None => None,
        }
    } else if contains_text(code, print_mark()) {
        match print_message(code) {
            Some(message) => Some("Output: "@ + message),
            None => None,
        }
    } else {
        arithmetic_text(code)
    }
}

/// The name that `code` declares, where it is answered as a `new`.
pub open spec fn declares(code: Seq<char>) -> Option<Seq<char>> {
    if has_prefix(code, "new "@) && contains_text(code, " in "@) {
        declared_name(code)
    } else {
        None
    }
}

/// The declared names after `name` has been declared: each name once.
pub open spec fn with_name(declared: Seq<Seq<char>>, name: Option<Seq<char>>) -> Seq<Seq<char>> {
    match name {
        Some(n) => if declared.contains(n) {
            declared
        } else {
            declared.push(n)
        },
        None => declared,
    }
}

/// Whether `r` is the answer of the stand-in interpreter to `code`: the
/// canned text where there is one, else the parse tree of `code`, or an error
/// where the brackets of `code` do not balance.
pub open spec fn answer_to(code: Seq<char>, r: InterpretationResult) -> bool {
    match canned(code) {
        Some(text) => succeeds_with(r, text),
        None => if balanced(code) {
            succeeds_with(r, tree_text(code))
        } else {
            fails_on(r, "Parse tree contains errors"@, code)
        },
    }
}

/// An interpreter that recognises a few shapes of code by their text.
pub struct FakeRholangInterpreter {
    parser: RholangParser,
    /// The names declared so far, each once.
    variables: Vec<String>,
    /// How long a run is to take, in milliseconds.
    delay_ms: u64,
}

impl FakeRholangInterpreter {
    /// The names declared so far.
    pub closed spec fn declared(&self) -> Seq<Seq<char>> {
        lines_view(self.variables@)
    }

    /// How long a run is to take, in milliseconds.
    pub closed spec fn delay(&self) -> u64 {
        self.delay_ms
    }

    /// An interpreter without declared names, whose runs take two seconds.
    pub fn new() -> (r: Result<Self, String>)
        ensures
            r matches Ok(i) && i.delay() == 2000 && i.declared().len() == 0,
    {
        let parser = match RholangParser::new() {
            Ok(p) => p,
            Err(e) => {
                return Err(e);
            },
        };
        let variables: Vec<String> = Vec::new();
        assert(lines_view(variables@) =~= Seq::<Seq<char>>::empty());
        Ok(FakeRholangInterpreter { parser, variables, delay_ms: 2000 })
    }

    /// Sets how long a run is to take.
    pub fn set_delay(&mut self, delay_ms: u64)
        ensures
            final(self).delay() == delay_ms,
            final(self).declared() == old(self).declared(),
    {
        self.delay_ms = delay_ms;
    }

    /// How long a run is to take, in milliseconds.
    pub fn delay_ms(&self) -> (r: u64)
        ensures
            r == self.delay(),
    {
        self.delay_ms
    }

    /// Whether the brackets of `code` balance.
    pub fn is_valid(&mut self, code: &str) -> (r: bool)
        ensures
            r == balanced(code@),
            final(self).delay() == old(self).delay(),
            final(self).declared() == old(self).declared(),
    {
        self.parser.is_valid(code)
    }

    /// Whether `name` has been declared.
    fn knows(&self, name: &str) -> (r: bool)
        ensures
            r == self.declared().contains(name@),
    {
        let mut i: usize = 0;
        while i < self.variables.len()
            invariant
                i <= self.variables@.len(),
                forall|k: int| 0 <= k < i ==> self.declared()[k] != name@,
            decreases self.variables@.len() - i,
        {
            if str_eq(self.variables[i].as_str(), name) {
                assert(self.declared()[i as int] == name@);
                return true;
            }
            i += 1;
        }
        false
    }

    /// Answers a print statement with its message.
    #[verifier::rlimit(40)]
    pub fn handle_print(&mut self, code: &str) -> (r: InterpretationResult)
        ensures
            match print_message(code@) {
                Some(message) => succeeds_with(r, "Output: "@ + message),
                None => if balanced(code@) {
                    succeeds_with(r, tree_text(code@))
                } else {
                    fails_on(r, "Parse tree contains errors"@, code@)
                },
            },
            final(self).delay() == old(self).delay(),
            final(self).declared() == old(self).declared(),
    {
        let chars = chars_of(code);
        let mark = chars_of("@\"stdout\"!(");
        proof {
            assert(chars@.len() == chars.len());
        }
        match find(&chars, &mark, 0) {
            Some(start_idx) => {
                let content_start = start_idx + mark.len();
                match rfind_char(&chars, ')', chars.len()) {
                    Some(end_idx) => {
                        if end_idx >= content_start {
                            let n = end_idx - content_start;
                            let quoted = n >= 2 && chars[content_start] == '"' && chars[end_idx - 1]
                                == '"';
                            let message = if quoted {
                                code.substring_char(content_start + 1, end_idx - 1)
                            } else {
                                code.substring_char(content_start, end_idx)
                            };
                            proof {
                                let raw = code@.subrange(content_start as int, end_idx as int);
                                if n >= 2 {
                                    assert(raw[0] == chars@[content_start as int]);
                                    assert(raw.last() == chars@[end_idx - 1]);
                                }
                                if quoted {
                                    assert(raw.subrange(1, raw.len() - 1) =~= code@.subrange(
                                        content_start + 1,
                                        end_idx - 1,
                                    ));
                                }
                                assert(message@ == unquoted(raw));
                            }
                            let mut out = String::from_str("Output: ");
                            out.append(message);
                            return InterpretationResult::Success(out);
                        }
                    },
                    None => {},
                }
            },
            None => {},
        }
        self.parser.get_tree_string(code)
    }

    /// Answers a `new` with the name it declares, and keeps the name.
    pub fn handle_new_declaration(&mut self, code: &str) -> (r: InterpretationResult)
        ensures
            match declared_name(code@) {
                Some(name) => succeeds_with(r, "Created new name: "@ + name)
                    && final(self).declared() == with_name(old(self).declared(), Some(name)),
                None => (if balanced(code@) {
                    succeeds_with(r, tree_text(code@))
                } else {
                    fails_on(r, "Parse tree contains errors"@, code@)
                }) && final(self).declared() == old(self).declared(),
            },
            final(self).delay() == old(self).delay(),
    {
        let chars = chars_of(code);
        let opening = chars_of("new ");
        let closing = chars_of(" in ");
        proof {
            assert(chars@.len() == chars.len());
        }
        match find(&chars, &opening, 0) {
            Some(start_idx) => {
                let name_start = start_idx + opening.len();
                match find(&chars, &closing, name_start) {
                    Some(end_idx) => {
                        let name = code.substring_char(name_start, end_idx);
                        if !self.knows(name) {
                            let ghost before = self.declared();
                            self.variables.push(String::from_str(name));
                            proof {
                                assert(self.declared() =~= before.push(name@));
                            }
                        }
                        let mut out = String::from_str("Created new name: ");
                        out.append(name);
                        return InterpretationResult::Success(out);
                    },
                    None => {},
                }
            },
            None => {},
        }
        self.parser.get_tree_string(code)
    }

    /// Answers a for-comprehension with the channel it listens on.
    pub fn handle_for_comprehension(&mut self, code: &str) -> (r: InterpretationResult)
        ensures
            match for_parts(code@) {
                Some((var, channel)) => succeeds_with(
                    r,
                    "Listening for messages on "@ + channel + " as "@ + var,
                ),
                None => if balanced(code@) {
                    succeeds_with(r, tree_text(code@))
                } else {
                    fails_on(r, "Parse tree contains errors"@, code@)
                },
            },
            final(self).delay() == old(self).delay(),
            final(self).declared() == old(self).declared(),
    {
        let chars = chars_of(code);
        let opening = chars_of("for (");
        let closing = chars_of(")");
        let arrow = chars_of("<-");
        proof {
            assert(chars@.len() == chars.len());
        }
        match find(&chars, &opening, 0) {
            Some(start_idx) => {
                let pattern_start = start_idx + opening.len();
                match find(&chars, &closing, pattern_start) {
                    Some(end_idx) => {
                        let pattern = code.substring_char(pattern_start, end_idx);
                        let pattern_chars = chars_of(pattern);
                        match find(&pattern_chars, &arrow, 0) {
                            Some(arrow_idx) => {
                                let var_name = trim(pattern.substring_char(0, arrow_idx));
                                let channel = trim(
                                    pattern.substring_char(
                                        arrow_idx + arrow.len(),
                                        pattern_chars.len(),
                                    ),
                                );
                                let mut out = String::from_str("Listening for messages on ");
                                out.append(channel);
                                out.append(" as ");
                                out.append(var_name);
                                return InterpretationResult::Success(out);
                            },
                            None => {},
                        }
                    },
                    None => {},
                }
            },
            None => {},
        }
        self.parser.get_tree_string(code)
    }

    /// Whether `code` holds one of the four arithmetic operators.
    pub fn is_arithmetic_expression(&self, code: &str) -> (r: bool)
        ensures
            r == is_arithmetic(code@),
    {
        str_contains(code, "+") || str_contains(code, "-") || str_contains(code, "*")
            || str_contains(code, "/")
    }

    /// Answers an arithmetic expression with a sentence about it.
    pub fn handle_arithmetic(&mut self, code: &str) -> (r: InterpretationResult)
        ensures
            match arithmetic_text(code@) {
                Some(text) => succeeds_with(r, text),
                None => if balanced(code@) {
                    succeeds_with(r, tree_text(code@))
                } else {
                    fails_on(r, "Parse tree contains errors"@, code@)
                },
            },
            final(self).delay() == old(self).delay(),
            final(self).declared() == old(self).declared(),
    {
        if str_contains(code, "+") {
            let mut out = String::from_str("Addition expression: ");
            out.append(code);
            InterpretationResult::Success(out)
        } else if str_contains(code, "-") {
            let mut out = String::from_str("Subtraction expression: ");
            out.append(code);
            InterpretationResult::Success(out)
        } else if str_contains(code, "*") {
            let mut out = String::from_str("Multiplication expression: ");
            out.append(code);
            InterpretationResult::Success(out)
        } else if str_contains(code, "/") {
            let mut out = String::from_str("Division expression: ");
            out.append(code);
            InterpretationResult::Success(out)
        } else {
            self.parser.get_tree_string(code)
        }
    }

    /// Answers `code`.
    ///
    /// Code whose brackets do not balance is an error. Else the code is
    /// taken without the white space around it: a `new` is answered with the
    /// name it declares, a for-comprehension with the channel it listens on,
    /// a print statement with its message, an arithmetic expression with a
    /// sentence about it, and anything else with its parse tree.
    #[verifier::rlimit(40)]
    pub fn interpret(&mut self, code: &str) -> (r: InterpretationResult)
        ensures
            balanced(code@) ==> answer_to(trim_space(code@), r),
            !balanced(code@) ==> fails_on(r, "Invalid Rholang code"@, code@),
            final(self).delay() == old(self).delay(),
            final(self).declared() == (if balanced(code@) {
                with_name(old(self).declared(), declares(trim_space(code@)))
            } else {
                old(self).declared()
            }),
    {
        if !self.parser.is_valid(code) {
            return InterpretationResult::Error(
                InterpreterError::parsing_error(
                    "Invalid Rholang code",
                    None,
                    Some(String::from_str(code)),
                ),
            );
        }
        let code = trim(code);
        if str_starts_with(code, "new ") && str_contains(code, " in ") {
            self.handle_new_declaration(code)
        } else if str_starts_with(code, "for (") && str_contains(code, "<-") {
            self.handle_for_comprehension(code)
        } else if str_contains(code, "@\"stdout\"!(") {
            self.handle_print(code)
        } else if self.is_arithmetic_expression(code) {
            self.handle_arithmetic(code)
        } else {
            self.parser.get_tree_string(code)
        }
    }
}

} // verus!
