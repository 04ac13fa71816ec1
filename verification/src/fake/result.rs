//! The outcome of a run as one text.
use vstd::prelude::*;
use vstd::string::StringExecFns;
use crate::text::{position_text, position_to_text};

verus! {

/// What a run of the interpreter gave.
#[derive(Debug, Clone)]
pub enum InterpreterResult {
    /// The run succeeded with this value.
    Success(String),
    /// The program is not well formed.
    ParsingError { message: String, line: Option<usize>, column: Option<usize> },
    /// The program failed while it ran.
    RuntimeError { message: String, details: Option<String> },
}

impl InterpreterResult {
    /// The text that reports the outcome.
    pub open spec fn text(&self) -> Seq<char> {
        match self {
            InterpreterResult::Success(result) => result@,
            InterpreterResult::ParsingError { message, line, column } => match (line, column) {
                (Some(l), Some(c)) => "Parsing error at "@ + position_text(*l, *c) + ": "@ + message@,
                _ => "Parsing error: "@ + message@,
            },
            InterpreterResult::RuntimeError { message, details } => match details {
                Some(d) => "Runtime error: "@ + message@ + " - "@ + d@,
                None => "Runtime error: "@ + message@,
            },
        }
    }

    /// The outcome as text.
    pub fn to_text(&self) -> (r: String)
        ensures
            r@ == self.text(),
    {
        match self {
            InterpreterResult::Success(result) => result.clone(),
            InterpreterResult::ParsingError { message, line, column } => {
                match (line, column) {
                    (Some(l), Some(c)) => {
                        let mut out = String::from_str("Parsing error at ");
                        let place = position_to_text(*l, *c);
                        out.append(place.as_str());
                        out.append(": ");
                        out.append(message.as_str());
                        out
                    },
                    _ => {
                        let mut out = String::from_str("Parsing error: ");
                        out.append(message.as_str());
                        out
                    },
                }
            },
            InterpreterResult::RuntimeError { message, details } => {
                let mut out = String::from_str("Runtime error: ");
                out.append(message.as_str());
                match details {
                    Some(d) => {
                        out.append(" - ");
                        out.append(d.as_str());
                    },
                    None => {},
                }
                out
            },
        }
    }

    /// The value of a success, or the report of a failure.
    pub fn to_string_result(&self) -> (r: Result<String, String>)
        ensures
            match r {
                Ok(s) => self is Success && s@ == self.text(),
                Err(e) => !(self is Success) && e@ == self.text(),
            },
    {
        match self {
            InterpreterResult::Success(result) => Ok(result.clone()),
            _ => Err(self.to_text()),
        }
    }
}

} // verus!
