//! What the shell needs from an interpreter.
use vstd::prelude::*;
use vstd::string::StringExecFns;
use crate::text::{append_report_tail, report_tail};

verus! {

/// An error of an interpreter, with what is known about its place.
#[derive(Debug, Clone)]
pub struct InterpreterError {
    pub message: String,
    pub position: Option<String>,
    pub source: Option<String>,
}

impl InterpreterError {
    /// The text of an optional position.
    pub open spec fn position_view(&self) -> Option<Seq<char>> {
        match self.position {
            Some(p) => Some(p@),
            None => None,
        }
    }

    /// The text of an optional source.
    pub open spec fn source_view(&self) -> Option<Seq<char>> {
        match self.source {
            Some(s) => Some(s@),
            None => None,
        }
    }

    /// An error of the program text.
    pub fn parsing_error(message: &str, position: Option<String>, source: Option<String>) -> (r:
        InterpreterError)
        ensures
            r.message@ == message@,
            r.position == position,
            r.source == source,
    {
        InterpreterError { message: String::from_str(message), position, source }
    }

    /// A run that took too long.
    pub fn timeout_error(message: &str) -> (r: InterpreterError)
        ensures
            r.message@ == message@,
            r.position is None,
            r.source is None,
    {
        InterpreterError { message: String::from_str(message), position: None, source: None }
    }

    /// A run that was called off.
    pub fn cancellation_error(message: &str) -> (r: InterpreterError)
        ensures
            r.message@ == message@,
            r.position is None,
            r.source is None,
    {
        InterpreterError { message: String::from_str(message), position: None, source: None }
    }

    /// Any other error.
    pub fn other_error(message: &str) -> (r: InterpreterError)
        ensures
            r.message@ == message@,
            r.position is None,
            r.source is None,
    {
        InterpreterError { message: String::from_str(message), position: None, source: None }
    }

    /// The error as a report: the message, then the place and the source
    /// where they are known.
    pub fn to_text(&self) -> (r: String)
        ensures
            r@ == self.message@ + report_tail(self.position_view(), self.source_view()),
    {
        let mut out = self.message.clone();
        append_report_tail(
            &mut out,
            match &self.position {
                Some(p) => Some(p.as_str()),
                None => None,
            },
            match &self.source {
                Some(s) => Some(s.as_str()),
                None => None,
            },
        );
        out
    }
}

/// What a run gives: a value, or an error.
#[derive(Debug, Clone)]
pub enum InterpretationResult {
    Success(String),
    Error(InterpreterError),
}

impl InterpretationResult {
    pub fn is_success(&self) -> (r: bool)
        ensures
            r == (self is Success),
    {
        match self {
            InterpretationResult::Success(_) => true,
            InterpretationResult::Error(_) => false,
        }
    }

    pub fn is_error(&self) -> (r: bool)
        ensures
            r == (self is Error),
    {
        match self {
            InterpretationResult::Success(_) => false,
            InterpretationResult::Error(_) => true,
        }
    }

    /// The value of a success.
    pub fn unwrap(self) -> (r: String)
        requires
            self is Success,
        ensures
            self == InterpretationResult::Success(r),
    {
        match self {
            InterpretationResult::Success(value) => value,
            InterpretationResult::Error(_) => vstd::pervasive::unreached(),
        }
    }

    /// The error of a failure.
    pub fn unwrap_err(self) -> (r: InterpreterError)
        requires
            self is Error,
        ensures
            self == InterpretationResult::Error(r),
    {
        match self {
            InterpretationResult::Success(_) => vstd::pervasive::unreached(),
            InterpretationResult::Error(err) => err,
        }
    }
}

/// An interpreter that the shell can drive: it runs code, and it keeps a
/// list of the runs that have not ended yet.
pub trait InterpreterProvider {
    /// Runs `code`.
    fn interpret(&self, code: &str) -> InterpretationResult;

    /// The runs that have not ended, each with its number and its code.
    fn list_processes(&self) -> Result<Vec<(usize, String)>, String>;

    /// Ends the run with the number `pid`; says whether there was one.
    fn kill_process(&self, pid: usize) -> Result<bool, String>;

    /// Ends every run; says how many there were.
    fn kill_all_processes(&self) -> Result<usize, String>;
}

/// An interpreter that answers with the code it was given and never has a
/// run to show.
pub struct FakeInterpreterProvider;

impl InterpreterProvider for FakeInterpreterProvider {
    fn interpret(&self, code: &str) -> (r: InterpretationResult)
        ensures
            r matches InterpretationResult::Success(s) && s@ == code@,
    {
        InterpretationResult::Success(String::from_str(code))
    }

    fn list_processes(&self) -> (r: Result<Vec<(usize, String)>, String>)
        ensures
            r matches Ok(v) && v@.len() == 0,
    {
        Ok(Vec::new())
    }

    fn kill_process(&self, _pid: usize) -> (r: Result<bool, String>)
        ensures
            r == Ok::<bool, String>(false),
    {
        Ok(false)
    }

    fn kill_all_processes(&self) -> (r: Result<usize, String>)
        ensures
            r == Ok::<usize, String>(0),
    {
        Ok(0)
    }
}

} // verus!
