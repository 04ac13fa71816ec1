//! Errors and results of the parser as its callers see them.
use vstd::prelude::*;
use vstd::string::StringExecFns;
use crate::text::{append_report_tail, position_text, position_to_text, report_tail};

verus! {

/// What kind of error occurred.
#[derive(Debug, Clone, Copy, PartialEq, Eq, Structural)]
pub enum ErrorKind {
    /// The program is not well formed.
    ParsingError,
    /// The grammar front end failed.
    TreeSitterError,
    /// Anything else.
    OtherError,
}

/// A place in the source text, lines and columns counted from one.
#[derive(Debug, Clone, Copy, PartialEq, Eq, Structural)]
pub struct SourcePosition {
    pub line: usize,
    pub column: usize,
}

impl SourcePosition {
    /// The position as `line <line>, column <column>`.
    pub fn to_text(&self) -> (r: String)
        ensures
            r@ == position_text(self.line, self.column),
    {
        position_to_text(self.line, self.column)
    }
}

/// An error of the parser, with what is known about its place.
#[derive(Debug, Clone)]
pub struct ParserError {
    pub kind: ErrorKind,
    pub message: String,
    pub position: Option<SourcePosition>,
    pub source: Option<String>,
}

/// The headline that announces an error of kind `kind`.
pub open spec fn headline(kind: ErrorKind) -> Seq<char> {
    match kind {
        ErrorKind::ParsingError => "Parsing error: "@,
        ErrorKind::TreeSitterError => "Tree-sitter error: "@,
        ErrorKind::OtherError => "Error: "@,
    }
}

impl ParserError {
    /// The text of an optional position.
    pub open spec fn position_view(&self) -> Option<Seq<char>> {
        match self.position {
            Some(p) => Some(position_text(p.line, p.column)),
            None => None,
        }
    }

    /// The text of an optional source.
    pub open spec fn source_view(&self) -> Option<Seq<char>> {
        match self.source {
            Some(s) => Some(s@),
            None => None,
        }
    }

    /// An error of the program.
    pub fn parsing_error(message: &str, position: Option<SourcePosition>, source: Option<String>) -> (r:
        ParserError)
        ensures
            r.kind == ErrorKind::ParsingError,
            r.message@ == message@,
            r.position == position,
            r.source == source,
    {
        ParserError { kind: ErrorKind::ParsingError, message: String::from_str(message), position, source }
    }

    /// An error of the grammar front end.
    pub fn tree_sitter_error(
        message: &str,
        position: Option<SourcePosition>,
        source: Option<String>,
    ) -> (r: ParserError)
        ensures
            r.kind == ErrorKind::TreeSitterError,
            r.message@ == message@,
            r.position == position,
            r.source == source,
    {
        ParserError {
            kind: ErrorKind::TreeSitterError,
            message: String::from_str(message),
            position,
            source,
        }
    }

    /// Any other error, without a place.
    pub fn other_error(message: &str) -> (r: ParserError)
        ensures
            r.kind == ErrorKind::OtherError,
            r.message@ == message@,
            r.position is None,
            r.source is None,
    {
        ParserError {
            kind: ErrorKind::OtherError,
            message: String::from_str(message),
            position: None,
            source: None,
        }
    }

    /// The error as a report: headline and message, then the place and the
    /// source where they are known.
    pub fn to_text(&self) -> (r: String)
        ensures
            r@ == headline(self.kind) + self.message@ + report_tail(
                self.position_view(),
                self.source_view(),
            ),
    {
        let mut out = match self.kind {
            ErrorKind::ParsingError => String::from_str("Parsing error: "),
            ErrorKind::TreeSitterError => String::from_str("Tree-sitter error: "),
            ErrorKind::OtherError => String::from_str("Error: "),
        };
        out.append(self.message.as_str());
        let place = match &self.position {
            Some(p) => Some(p.to_text()),
            None => None,
        };
        append_report_tail(
            &mut out,
            match &place {
                Some(p) => Some(p.as_str()),
                None => None,
            },
            match &self.source {
                Some(s) => Some(s.as_str()),
                None => None,
            },
        );
        out
    }
}

/// What a parse gives: a value, or an error.
#[derive(Debug, Clone)]
pub enum ParseResult<T> {
    Success(T),
    Error(ParserError),
}

impl<T> ParseResult<T> {
    pub fn success(result: T) -> (r: Self)
        ensures
            r == ParseResult::Success(result),
    {
        ParseResult::Success(result)
    }

    pub fn error(error: ParserError) -> (r: Self)
        ensures
            r == ParseResult::<T>::Error(error),
    {
        ParseResult::Error(error)
    }

    pub fn is_success(&self) -> (r: bool)
        ensures
            r == (self is Success),
    {
        match self {
            ParseResult::Success(_) => true,
            ParseResult::Error(_) => false,
        }
    }

    pub fn is_error(&self) -> (r: bool)
        ensures
            r == (self is Error),
    {
        match self {
            ParseResult::Success(_) => false,
            ParseResult::Error(_) => true,
        }
    }

    /// Applies `f` to the value of a success; an error stays as it is.
    pub fn map<U, F: FnOnce(T) -> U>(self, f: F) -> (r: ParseResult<U>)
        requires
            self matches ParseResult::Success(v) ==> f.requires((v,)),
        ensures
            match self {
                ParseResult::Success(v) => r matches ParseResult::Success(u) && f.ensures((v,), u),
                ParseResult::Error(e) => r == ParseResult::<U>::Error(e),
            },
    {
        match self {
            ParseResult::Success(value) => ParseResult::Success(f(value)),
            ParseResult::Error(err) => ParseResult::Error(err),
        }
    }

    /// The value of a success.
    pub fn unwrap(self) -> (r: T)
        requires
            self is Success,
        ensures
            self == ParseResult::Success(r),
    {
        match self {
            ParseResult::Success(value) => value,
            ParseResult::Error(_) => vstd::pervasive::unreached(),
        }
    }

    /// The error of a failure.
    pub fn unwrap_err(self) -> (r: ParserError)
        requires
            self is Error,
        ensures
            self == ParseResult::<T>::Error(r),
    {
        match self {
            ParseResult::Success(_) => vstd::pervasive::unreached(),
            ParseResult::Error(err) => err,
        }
    }
}

impl<T> From<ParserError> for ParseResult<T> {
    fn from(error: ParserError) -> (r: Self) {
        ParseResult::Error(error)
    }
}

impl<T> vstd::std_specs::convert::FromSpecImpl<ParserError> for ParseResult<T> {
    open spec fn obeys_from_spec() -> bool {
        true
    }

    open spec fn from_spec(error: ParserError) -> Self {
        ParseResult::Error(error)
    }
}

} // verus!
