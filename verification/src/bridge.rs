//! What a front end in another language is told about a parse.
use vstd::prelude::*;
use vstd::string::StringExecFns;
use crate::errors::{headline, ParseResult, ParserError};
use crate::text::report_tail;

verus! {

/// The outcome of a parse as three plain fields.
#[derive(Debug, Clone, PartialEq, Eq)]
pub struct ParserResult {
    /// Whether the code is valid.
    pub valid: bool,
    /// The parse tree as text, where the code is valid.
    pub tree: Option<String>,
    /// What is wrong, where the code is not valid.
    pub error: Option<String>,
}

impl ParserResult {
    /// The outcome of a parse that failed for the reason `message`.
    pub fn failure(message: &str) -> (r: ParserResult)
        ensures
            !r.valid,
            r.tree is None,
            r.error matches Some(e) && e@ == message@,
    {
        ParserResult { valid: false, tree: None, error: Some(String::from_str(message)) }
    }

    /// The outcome of a parse: the tree of a success, or the report of an
    /// error.
    pub fn from_parse_result(result: ParseResult<String>) -> (r: ParserResult)
        ensures
            match result {
                ParseResult::Success(tree) => r.valid && r.tree == Some(tree) && r.error is None,
                ParseResult::Error(err) => !r.valid && r.tree is None && (r.error matches Some(e)
                    && e@ == headline(err.kind) + err.message@ + report_tail(
                    err.position_view(),
                    err.source_view(),
                )),
            },
    {
        match result {
            ParseResult::Success(tree) => ParserResult { valid: true, tree: Some(tree), error: None },
            ParseResult::Error(err) => ParserResult {
                valid: false,
                tree: None,
                error: Some(err.to_text()),
            },
        }
    }

    /// The outcome of a check that only asks whether the code is valid.
    pub fn checked(valid: bool) -> (r: ParserResult)
        ensures
            r.valid == valid,
            r.tree is None,
            r.error is None,
    {
        ParserResult { valid, tree: None, error: None }
    }
}

} // verus!
