//! Errors and results of the stand-in interpreter.
use vstd::prelude::*;
use vstd::string::StringExecFns;
use crate::text::{append_report_tail, position_text, position_to_text, report_tail};

verus! {

/// What kind of error occurred.
#[derive(Debug, Clone, Copy, PartialEq, Eq, Structural)]
pub enum ErrorKind {
    /// The program is not well formed.
    ParsingError,
    /// The program failed while it ran.
    RuntimeError,
    /// The program took too long.
    TimeoutError,
    /// The run was called off.
    CancellationError,
    /// Anything else.
    OtherError,
}

/// A place in the source text, lines and columns counted from one.
#[derive(Debug, Clone, Copy, PartialEq, Eq, Structural)]
pub struct SourcePosition {
    pub line: usize,
    pub column: usize,
}

impl SourcePosition {
    /// The position as `line <line>, column <column>`.
    pub fn to_text(&self) -> (r: String)
        ensures
            r@ == position_text(self.line, self.column),
    {
        position_to_text(self.line, self.column)
    }
}

/// An error of the interpreter, with what is known about its place.
#[derive(Debug, Clone)]
pub struct InterpreterError {
    pub kind: ErrorKind,
    pub message: String,
    pub position: Option<SourcePosition>,
    pub source: Option<String>,
}

/// The headline that announces an error of kind `kind`.
pub open spec fn headline(kind: ErrorKind) -> Seq<char> {
    match kind {
        ErrorKind::ParsingError => "Parsing error: "@,
        ErrorKind::RuntimeError => "Runtime error: "@,
        ErrorKind::TimeoutError => "Timeout error: "@,
        ErrorKind::CancellationError => "Cancellation error: "@,
        ErrorKind::OtherError => "Error: "@,
    }
}

impl InterpreterError {
    /// The text of an optional position.
    pub open spec fn position_view(&self) -> Option<Seq<char>> {
        match self.position {
            Some(p) => Some(position_text(p.line, p.column)),
            None => None,
        }
    }

    /// The text of an optional source.
    pub open spec fn source_view(&self) -> Option<Seq<char>> {
        match self.source {
            Some(s) => Some(s@),
            None => None,
        }
    }

    /// An error of the program text.
    pub fn parsing_error(message: &str, position: Option<SourcePosition>, source: Option<String>) -> (r:
        InterpreterError)
        ensures
            r.kind == ErrorKind::ParsingError,
            r.message@ == message@,
            r.position == position,
            r.source == source,
    {
        InterpreterError {
            kind: ErrorKind::ParsingError,
            message: String::from_str(message),
            position,
            source,
        }
    }

    /// An error of the running program.
    pub fn runtime_error(message: &str, position: Option<SourcePosition>, source: Option<String>) -> (r:
        InterpreterError)
        ensures
            r.kind == ErrorKind::RuntimeError,
            r.message@ == message@,
            r.position == position,
            r.source == source,
    {
        InterpreterError {
            kind: ErrorKind::RuntimeError,
            message: String::from_str(message),
            position,
            source,
        }
    }

    /// A run that took too long.
    pub fn timeout_error(message: &str) -> (r: InterpreterError)
        ensures
            r.kind == ErrorKind::TimeoutError,
            r.message@ == message@,
            r.position is None,
            r.source is None,
    {
        InterpreterError {
            kind: ErrorKind::TimeoutError,
            message: String::from_str(message),
            position: None,
            source: None,
        }
    }

    /// A run that was called off.
    pub fn cancellation_error(message: &str) -> (r: InterpreterError)
        ensures
            r.kind == ErrorKind::CancellationError,
            r.message@ == message@,
            r.position is None,
            r.source is None,
    {
        InterpreterError {
            kind: ErrorKind::CancellationError,
            message: String::from_str(message),
            position: None,
            source: None,
        }
    }

    /// Any other error, without a place.
    pub fn other_error(message: &str) -> (r: InterpreterError)
        ensures
            r.kind == ErrorKind::OtherError,
            r.message@ == message@,
            r.position is None,
            r.source is None,
    {
        InterpreterError {
            kind: ErrorKind::OtherError,
            message: String::from_str(message),
            position: None,
            source: None,
        }
    }

    /// The error as a report: headline and message, then the place and the
    /// source where they are known.
    pub fn to_text(&self) -> (r: String)
        ensures
            r@ == headline(self.kind) + self.message@ + report_tail(
                self.position_view(),
                self.source_view(),
            ),
    {
        let mut out = match self.kind {
            ErrorKind::ParsingError => String::from_str("Parsing error: "),
            ErrorKind::RuntimeError => String::from_str("Runtime error: "),
            ErrorKind::TimeoutError => String::from_str("Timeout error: "),
            ErrorKind::CancellationError => String::from_str("Cancellation error: "),
            ErrorKind::OtherError => String::from_str("Error: "),
        };
        out.append(self.message.as_str());
        let place = match &self.position {
            Some(p) => Some(p.to_text()),
            None => None,
        };
        append_report_tail(
            &mut out,
            match &place {
                Some(p) => Some(p.as_str()),
                None => None,
            },
            match &self.source {
                Some(s) => Some(s.as_str()),
                None => None,
            },
        );
        out
    }
}

/// What a run gives: a value, or an error.
#[derive(Debug, Clone)]
pub enum InterpretationResult {
    Success(String),
    Error(InterpreterError),
}

impl InterpretationResult {
    pub fn success(result: &str) -> (r: Self)
        ensures
            r matches InterpretationResult::Success(s) && s@ == result@,
    {
        InterpretationResult::Success(String::from_str(result))
    }

    pub fn error(error: InterpreterError) -> (r: Self)
        ensures
            r == InterpretationResult::Error(error),
    {
        InterpretationResult::Error(error)
    }

    pub fn is_success(&self) -> (r: bool)
        ensures
            r == (self is Success),
    {
        match self {
            InterpretationResult::Success(_) => true,
            InterpretationResult::Error(_) => false,
        }
    }

    pub fn is_error(&self) -> (r: bool)
        ensures
            r == (self is Error),
    {
        match self {
            InterpretationResult::Success(_) => false,
            InterpretationResult::Error(_) => true,
        }
    }

    /// The value of a success.
    pub fn unwrap(self) -> (r: String)
        requires
            self is Success,
        ensures
            self == InterpretationResult::Success(r),
    {
        match self {
            InterpretationResult::Success(value) => value,
            InterpretationResult::Error(_) => vstd::pervasive::unreached(),
        }
    }

    /// The error of a failure.
    pub fn unwrap_err(self) -> (r: InterpreterError)
        requires
            self is Error,
        ensures
            self == InterpretationResult::Error(r),
    {
        match self {
            InterpretationResult::Success(_) => vstd::pervasive::unreached(),
            InterpretationResult::Error(err) => err,
        }
    }
}

impl From<InterpreterError> for InterpretationResult {
    fn from(error: InterpreterError) -> (r: Self) {
        InterpretationResult::Error(error)
    }
}

impl vstd::std_specs::convert::FromSpecImpl<InterpreterError> for InterpretationResult {
    open spec fn obeys_from_spec() -> bool {
        true
    }

    open spec fn from_spec(error: InterpreterError) -> Self {
        InterpretationResult::Error(error)
    }
}

impl From<String> for InterpretationResult {
    fn from(value: String) -> (r: Self) {
        InterpretationResult::Success(value)
    }
}

impl vstd::std_specs::convert::FromSpecImpl<String> for InterpretationResult {
    open spec fn obeys_from_spec() -> bool {
        true
    }

    open spec fn from_spec(value: String) -> Self {
        InterpretationResult::Success(value)
    }
}

impl<'a> From<&'a str> for InterpretationResult {
    fn from(value: &'a str) -> (r: Self) {
        InterpretationResult::Success(String::from_str(value))
    }
}

impl<'a> vstd::std_specs::convert::FromSpecImpl<&'a str> for InterpretationResult {
    open spec fn obeys_from_spec() -> bool {
        false
    }

    open spec fn from_spec(value: &'a str) -> Self {
        arbitrary()
    }
}

} // verus!
