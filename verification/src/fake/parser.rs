//! The syntax check of the stand-in interpreter: brackets have to balance.
use vstd::prelude::*;
use vstd::string::StringExecFns;
use crate::fake::errors::{InterpretationResult, InterpreterError};
use crate::text::chars_of;

verus! {

/// How many more `open` than `close` stand in the first `upto` characters of
/// `s`.
pub open spec fn depth(s: Seq<char>, open: char, close: char, upto: int) -> int
    decreases upto,
{
    if upto <= 0 || upto > s.len() {
        0
    } else {
        depth(s, open, close, upto - 1) + if s[upto - 1] == open {
            1int
        } else if s[upto - 1] == close {
            -1int
        } else {
            0int
        }
    }
}

/// Whether no `close` of `s[..upto]` comes before the `open` that it closes.
pub open spec fn opens_first(s: Seq<char>, open: char, close: char, upto: int) -> bool {
    forall|k: int| 0 <= k <= upto ==> #[trigger] depth(s, open, close, k) >= 0
}

/// Whether no bracket of `s[..upto]` closes what was not opened.
pub open spec fn never_negative(s: Seq<char>, upto: int) -> bool {
    &&& opens_first(s, '{', '}', upto)
    &&& opens_first(s, '(', ')', upto)
    &&& opens_first(s, '[', ']', upto)
}

/// Whether the braces, the parentheses and the square brackets of `s`
/// balance, each kind by itself: none closes before it opens, and none stays
/// open.
pub open spec fn balanced(s: Seq<char>) -> bool {
    &&& never_negative(s, s.len() as int)
    &&& depth(s, '{', '}', s.len() as int) == 0
    &&& depth(s, '(', ')', s.len() as int) == 0
    &&& depth(s, '[', ']', s.len() as int) == 0
}

/// The text that stands for the parse tree of `code`.
pub open spec fn tree_text(code: Seq<char>) -> Seq<char> {
    "Parse tree: "@ + code
}

/// Whether `r` is the success with the text `text`.
pub open spec fn succeeds_with(r: InterpretationResult, text: Seq<char>) -> bool {
    r matches InterpretationResult::Success(s) && s@ == text
}

/// Whether `r` is the parsing error with the message `message` about the
/// source `code`, without a place.
pub open spec fn fails_on(r: InterpretationResult, message: Seq<char>, code: Seq<char>) -> bool {
    r matches InterpretationResult::Error(e) && e.kind
        == crate::fake::errors::ErrorKind::ParsingError && e.message@ == message && e.position is None
        && (e.source matches Some(s) && s@ == code)
}

/// A parser that only checks brackets.
pub struct RholangParser;

impl RholangParser {
    pub fn new() -> (r: Result<Self, String>)
        ensures
            r is Ok,
    {
        Ok(RholangParser)
    }

    /// Whether the brackets of `code` balance.
    pub fn is_valid(&mut self, code: &str) -> (r: bool)
        ensures
            r == balanced(code@),
    {
        let chars = chars_of(code);
        let n = chars.len();
        let mut brace: usize = 0;
        let mut paren: usize = 0;
        let mut bracket: usize = 0;
        let mut i: usize = 0;
        while i < n
            invariant
                i <= n,
                n == chars@.len(),
                chars@ == code@,
                brace == depth(chars@, '{', '}', i as int),
                paren == depth(chars@, '(', ')', i as int),
                bracket == depth(chars@, '[', ']', i as int),
                brace <= i,
                paren <= i,
                bracket <= i,
                never_negative(chars@, i as int),
            decreases n - i,
        {
            let c = chars[i];
            proof {
                assert(depth(chars@, '{', '}', i + 1) == depth(chars@, '{', '}', i as int) + if c
                    == '{' {
                    1int
                } else if c == '}' {
                    -1int
                } else {
                    0int
                });
                assert(depth(chars@, '(', ')', i + 1) == depth(chars@, '(', ')', i as int) + if c
                    == '(' {
                    1int
                } else if c == ')' {
                    -1int
                } else {
                    0int
                });
                assert(depth(chars@, '[', ']', i + 1) == depth(chars@, '[', ']', i as int) + if c
                    == '[' {
                    1int
                } else if c == ']' {
                    -1int
                } else {
                    0int
                });
            }
            if (c == '}' && brace == 0) || (c == ')' && paren == 0) || (c == ']' && bracket == 0) {
                proof {
                    let k = i + 1;
                    assert(depth(chars@, '{', '}', k) < 0 || depth(chars@, '(', ')', k) < 0
                        || depth(chars@, '[', ']', k) < 0);
                    assert(!never_negative(chars@, n as int));
                }
                return false;
            }
            if c == '{' {
                brace += 1;
            } else if c == '}' {
                brace -= 1;
            } else if c == '(' {
                paren += 1;
            } else if c == ')' {
                paren -= 1;
            } else if c == '[' {
                bracket += 1;
            } else if c == ']' {
                bracket -= 1;
            }
            proof {
                assert(opens_first(chars@, '{', '}', i + 1));
                assert(opens_first(chars@, '(', ')', i + 1));
                assert(opens_first(chars@, '[', ']', i + 1));
            }
            i += 1;
        }
        brace == 0 && paren == 0 && bracket == 0
    }

    /// The parse tree of `code` as a text, or an error where the brackets of
    /// `code` do not balance.
    pub fn get_tree_string(&mut self, code: &str) -> (r: InterpretationResult)
        ensures
            balanced(code@) ==> succeeds_with(r, tree_text(code@)),
            !balanced(code@) ==> fails_on(r, "Parse tree contains errors"@, code@),
    {
        if self.is_valid(code) {
            let mut out = String::from_str("Parse tree: ");
            out.append(code);
            InterpretationResult::Success(out)
        } else {
            InterpretationResult::Error(
                InterpreterError::parsing_error(
                    "Parse tree contains errors",
                    None,
                    Some(String::from_str(code)),
                ),
            )
        }
    }
}

} // verus!
