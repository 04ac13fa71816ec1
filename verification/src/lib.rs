//! A parser back end for the Rholang process calculus.
//!
//! The crate turns a concrete syntax tree, as a grammar-driven front end
//! delivers it, into a typed abstract syntax tree, and collects every syntax
//! and semantic error of one parse in a single pass. Around that core stand a
//! small demonstration interpreter and the line handling of an interactive
//! shell.
use vstd::prelude::*;


pub mod ast;
pub mod bridge;
pub mod cst;
pub mod errors;
pub mod fake;
pub mod parser;
pub mod shell;
pub mod text;

verus! {

/// A position in the source text. Lines and columns count from one.
#[derive(Debug, Clone, Copy, PartialEq, Eq, PartialOrd, Ord, Structural)]
pub struct SourcePos {
    pub line: usize,
    pub col: usize,
}

impl SourcePos {
    /// Whether `self` comes strictly before `other` in the text: on an
    /// earlier line, or on the same line in an earlier column.
    pub open spec fn precedes_spec(self, other: SourcePos) -> bool {
        self.line < other.line || (self.line == other.line && self.col < other.col)
    }

    /// Whether `self` comes strictly before `other` in the text.
    pub fn precedes(&self, other: &SourcePos) -> (r: bool)
        ensures
            r == self.precedes_spec(*other),
    {
        self.line < other.line || (self.line == other.line && self.col < other.col)
    }

    /// The one-based position of a zero-based row and column.
    pub fn from_point(row: usize, column: usize) -> (r: SourcePos)
        requires
            row < usize::MAX,
            column < usize::MAX,
        ensures
            r.line == row + 1,
            r.col == column + 1,
    {
        SourcePos { line: row + 1, col: column + 1 }
    }

    /// The position as text: line, a colon, column.
    pub fn to_text(&self) -> (r: String)
        ensures
            r@ == crate::text::decimal(self.line as nat) + seq![':'] + crate::text::decimal(
                self.col as nat,
            ),
    {
        let mut out = crate::text::usize_to_string(self.line);
        out.append(":");
        proof {
            reveal_strlit(":");
            assert(":"@ =~= seq![':']);
        }
        let col = crate::text::usize_to_string(self.col);
        out.append(col.as_str());
        out
    }
}

/// A stretch of source text, from `start` up to but not including `end`.
#[derive(Debug, Clone, Copy, PartialEq, Eq, Structural)]
pub struct SourceSpan {
    pub start: SourcePos,
    pub end: SourcePos,
}

impl SourceSpan {
    /// The span between two zero-based points.
    pub fn from_points(
        start_row: usize,
        start_column: usize,
        end_row: usize,
        end_column: usize,
    ) -> (r: SourceSpan)
        requires
            start_row < usize::MAX,
            start_column < usize::MAX,
            end_row < usize::MAX,
            end_column < usize::MAX,
        ensures
            r.start == (SourcePos { line: (start_row + 1) as usize, col: (start_column + 1) as usize }),
            r.end == (SourcePos { line: (end_row + 1) as usize, col: (end_column + 1) as usize }),
    {
        SourceSpan {
            start: SourcePos::from_point(start_row, start_column),
            end: SourcePos::from_point(end_row, end_column),
        }
    }

    /// The span as text: start, ` - `, end.
    pub fn to_text(&self) -> (r: String)
        ensures
            r@ == crate::text::decimal(self.start.line as nat) + seq![':'] + crate::text::decimal(
                self.start.col as nat,
            ) + seq![' ', '-', ' '] + (crate::text::decimal(self.end.line as nat) + seq![':']
                + crate::text::decimal(self.end.col as nat)),
    {
        let mut out = self.start.to_text();
        out.append(" - ");
        proof {
            reveal_strlit(" - ");
            assert(" - "@ =~= seq![' ', '-', ' ']);
        }
        let end = self.end.to_text();
        out.append(end.as_str());
        out
    }
}

} // verus!
