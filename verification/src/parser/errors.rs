//! What can be wrong with a program, and how a failed parse reports it.
use vstd::prelude::*;
use vstd::string::StrSliceExecFns;
use nonempty_collections::NEVec;
use crate::{SourcePos, SourceSpan};
use crate::ast::AnnProc;
use crate::cst::{CstNode, NodeKind};

verus! {

#[derive(Debug, Clone, PartialEq, Eq)]
pub enum ParsingError {
    /// Text that the grammar could not read, as the s-expression of what was
    /// recovered.
    SyntaxError { sexp: String },
    /// A token that the grammar expected and did not find.
    MissingToken(String),
    /// A single character out of place.
    Unexpected(char),
    /// A variable out of place.
    UnexpectedVar(String),
    /// An integer literal that does not fit 64 bits.
    NumberOutOfRange,
    /// A name declared twice by one `new`; `first` comes first in the text.
    DuplicateNameDecl { first: SourcePos, second: SourcePos },
    /// A `let` declaration whose two sides do not match in number.
    MalformedLetDecl { lhs_arity: usize, rhs_arity: usize },
}

pub ghost enum ParsingErrorV {
    SyntaxError { sexp: Seq<char> },
    MissingToken(Seq<char>),
    Unexpected(char),
    UnexpectedVar(Seq<char>),
    NumberOutOfRange,
    DuplicateNameDecl { first: SourcePos, second: SourcePos },
    MalformedLetDecl { lhs_arity: usize, rhs_arity: usize },
}

impl View for ParsingError {
    type V = ParsingErrorV;

    open spec fn view(&self) -> ParsingErrorV {
        match self {
            ParsingError::SyntaxError { sexp } => ParsingErrorV::SyntaxError { sexp: sexp@ },
            ParsingError::MissingToken(t) => ParsingErrorV::MissingToken(t@),
            ParsingError::Unexpected(c) => ParsingErrorV::Unexpected(*c),
            ParsingError::UnexpectedVar(v) => ParsingErrorV::UnexpectedVar(v@),
            ParsingError::NumberOutOfRange => ParsingErrorV::NumberOutOfRange,
            ParsingError::DuplicateNameDecl { first, second } => ParsingErrorV::DuplicateNameDecl {
                first: *first,
                second: *second,
            },
            ParsingError::MalformedLetDecl { lhs_arity, rhs_arity } => ParsingErrorV::MalformedLetDecl {
                lhs_arity: *lhs_arity,
                rhs_arity: *rhs_arity,
            },
        }
    }
}

/// An error with the span it is about.
#[derive(Debug, Clone, PartialEq, Eq)]
pub struct AnnParsingError {
    pub error: ParsingError,
    pub span: SourceSpan,
}

pub ghost struct AnnParsingErrorV {
    pub error: ParsingErrorV,
    pub span: SourceSpan,
}

impl View for AnnParsingError {
    type V = AnnParsingErrorV;

    open spec fn view(&self) -> AnnParsingErrorV {
        AnnParsingErrorV { error: self.error@, span: self.span }
    }
}

/// The twins of a run of errors, one for one.
pub open spec fn errors_model(s: Seq<AnnParsingError>) -> Seq<AnnParsingErrorV> {
    s.map_values(|e: AnnParsingError| e@)
}

/// What an error node reports: the one character it holds, where its first
/// named child is itself an error node of a single character; else the
/// s-expression of the node.
pub open spec fn error_of_node(node: CstNode) -> ParsingErrorV {
    match node.first_named() {
        Some(child) => if child.error && child.text@.len() == 1 {
            ParsingErrorV::Unexpected(child.text@[0])
        } else {
            ParsingErrorV::SyntaxError { sexp: node.sexp@ }
        },
        None => ParsingErrorV::SyntaxError { sexp: node.sexp@ },
    }
}

impl ParsingError {
    /// The error that an error node reports.
    pub fn from_error_node(node: &CstNode) -> (r: ParsingError)
        ensures
            r@ == error_of_node(*node),
    {
        match node.named_child(0) {
            Some(child) => {
                if child.error {
                    let text = child.text();
                    if text.unicode_len() == 1 {
                        return ParsingError::Unexpected(text.get_char(0));
                    }
                }
            },
            None => {},
        }
        ParsingError::SyntaxError { sexp: node.sexp.clone() }
    }
}

impl AnnParsingError {
    /// The report of an error node, at the node's span.
    pub fn from_error(node: &CstNode) -> (r: AnnParsingError)
        ensures
            r@ == (AnnParsingErrorV { error: error_of_node(*node), span: node.span }),
    {
        AnnParsingError { error: ParsingError::from_error_node(node), span: node.span }
    }

    /// The report of a missing token: the name that the grammar gives it, at
    /// the place where it should have stood.
    pub fn from_mising(node: &CstNode) -> (r: AnnParsingError)
        ensures
            r@ == (AnnParsingErrorV {
                error: ParsingErrorV::MissingToken(node.grammar_name@),
                span: node.span,
            }),
    {
        AnnParsingError {
            error: ParsingError::MissingToken(node.grammar_name.clone()),
            span: node.span,
        }
    }

    /// The report of a variable out of place: its text, at its span.
    pub fn from_var(var_node: &CstNode) -> (r: AnnParsingError)
        ensures
            r@ == (AnnParsingErrorV {
                error: ParsingErrorV::UnexpectedVar(var_node.text@),
                span: var_node.span,
            }),
    {
        AnnParsingError {
            error: ParsingError::UnexpectedVar(var_node.text.clone()),
            span: var_node.span,
        }
    }
}

/// `nonempty_collections::NEVec`, a vector that always holds an element.
#[verifier::external_type_specification]
#[verifier::external_body]
#[verifier::reject_recursive_types(T)]
pub struct ExNEVec<T>(NEVec<T>);

/// The errors that a non-empty list holds, in order.
pub uninterp spec fn listed_errors(list: NEVec<AnnParsingError>) -> Seq<AnnParsingError>;

/// Turns a vector into a non-empty list with `NEVec::try_from_vec`: `None`
/// for the empty vector, else the list of the same elements in the same
/// order.
#[verifier::external_body]
pub(crate) fn nonempty_errors(errors: Vec<AnnParsingError>) -> (r: Option<NEVec<AnnParsingError>>)
    ensures
        r is None <==> errors@.len() == 0,
        r matches Some(list) ==> listed_errors(list) == errors@,
{
    NEVec::try_from_vec(errors)
}

/// A parse that found something wrong: the tree as far as it could be built,
/// and every error that was found.
#[derive(Debug, PartialEq, Eq)]
pub struct ParsingFailure<'a> {
    pub partial_tree: Option<AnnProc<'a>>,
    pub errors: NEVec<AnnParsingError>,
}

// ---------------------------------------------------------------------------
// Collecting the syntax errors of a tree
// ---------------------------------------------------------------------------

/// Whether one of `node.children[from..]` is a variable.
pub open spec fn has_var_child(node: CstNode, from: int) -> bool
    decreases node.children@.len() - from,
{
    if from < 0 || from >= node.children@.len() {
        false
    } else {
        (node.children@[from].named && node.children@[from].kind == NodeKind::Var)
            || has_var_child(node, from + 1)
    }
}

/// What a node reports by itself, given whether its parent is an error node.
///
/// A missing token reports itself. A variable directly below an error node
/// reports itself as out of place. An error node reports itself unless its
/// parent is an error node or one of its children is a variable, which then
/// speaks for it.
pub open spec fn own_errors(node: CstNode, under_error: bool) -> Seq<AnnParsingErrorV> {
    if node.missing {
        seq![
            AnnParsingErrorV {
                error: ParsingErrorV::MissingToken(node.grammar_name@),
                span: node.span,
            },
        ]
    } else if node.named && node.kind == NodeKind::Var && under_error {
        seq![AnnParsingErrorV { error: ParsingErrorV::UnexpectedVar(node.text@), span: node.span }]
    } else if node.error && !under_error && !has_var_child(node, 0) {
        seq![AnnParsingErrorV { error: error_of_node(node), span: node.span }]
    } else {
        Seq::empty()
    }
}

/// The syntax errors of a subtree, and a bound on the steps that it takes to
/// collect them.
pub ghost struct Scan {
    pub errors: Seq<AnnParsingErrorV>,
    pub work: nat,
}

/// The syntax errors at and below `node`, parents before children, children
/// from left to right.
pub open spec fn scan(node: CstNode, under_error: bool) -> Scan
    decreases node, 1nat, 0nat,
{
    let below = scan_children(node, 0);
    Scan { errors: own_errors(node, under_error) + below.errors, work: below.work + 1 }
}

/// The syntax errors at and below the children of `parent` from position
/// `from` on.
pub open spec fn scan_children(parent: CstNode, from: int) -> Scan
    decreases parent, 0nat, parent.children@.len() - from,
{
    if from < 0 || from >= parent.children@.len() {
        Scan { errors: Seq::empty(), work: 1 }
    } else {
        let first = scan(parent.children@[from], parent.error);
        let rest = scan_children(parent, from + 1);
        Scan { errors: first.errors + rest.errors, work: first.work + rest.work }
    }
}

/// Children still to be visited.
struct Frame<'a> {
    parent: &'a CstNode,
    next: usize,
}

/// What is left to collect with `frames` on the stack, the last on top.
spec fn frames_scan(frames: Seq<Frame>) -> Scan
    decreases frames.len(),
{
    if frames.len() == 0 {
        Scan { errors: Seq::empty(), work: 0 }
    } else {
        let top = scan_children(*frames.last().parent, frames.last().next as int);
        let rest = frames_scan(frames.drop_last());
        Scan { errors: top.errors + rest.errors, work: top.work + rest.work }
    }
}

fn node_has_var_child(node: &CstNode) -> (r: bool)
    ensures
        r == has_var_child(*node, 0),
{
    let mut i: usize = 0;
    while i < node.children.len()
        invariant
            i <= node.children@.len(),
            has_var_child(*node, 0) == has_var_child(*node, i as int),
        decreases node.children@.len() - i,
    {
        let is_var = match node.children[i].kind {
            NodeKind::Var => true,
            _ => false,
        };
        if node.children[i].named && is_var {
            return true;
        }
        i += 1;
    }
    false
}

fn push_own_errors(node: &CstNode, under_error: bool, into: &mut Vec<AnnParsingError>)
    ensures
        errors_model(final(into)@) == errors_model(old(into)@) + own_errors(*node, under_error),
{
    let ghost before = errors_model(into@);
    let is_var = match node.kind {
        NodeKind::Var => true,
        _ => false,
    };
    if node.missing {
        let e = AnnParsingError::from_mising(node);
        proof {
            assert(errors_model(into@.push(e)) =~= before + seq![e@]);
        }
        into.push(e);
    } else if node.named && is_var && under_error {
        let e = AnnParsingError::from_var(node);
        proof {
            assert(errors_model(into@.push(e)) =~= before + seq![e@]);
        }
        into.push(e);
    } else if node.error && !under_error && !node_has_var_child(node) {
        let e = AnnParsingError::from_error(node);
        proof {
            assert(errors_model(into@.push(e)) =~= before + seq![e@]);
        }
        into.push(e);
    } else {
        proof {
            assert(before + Seq::<AnnParsingErrorV>::empty() =~= before);
        }
    }
}

/// Appends to `into` every syntax error of the tree below `of`: missing
/// tokens, variables out of place, and error nodes that nothing else speaks
/// for.
pub fn query_errors(of: &CstNode, under_error: bool, into: &mut Vec<AnnParsingError>)
    ensures
        errors_model(final(into)@) == errors_model(old(into)@) + scan(*of, under_error).errors,
{
    let ghost before = errors_model(into@);
    let ghost want = before + scan(*of, under_error).errors;
    push_own_errors(of, under_error, into);
    let mut frames: Vec<Frame> = Vec::new();
    frames.push(Frame { parent: of, next: 0 });
    proof {
        assert(frames@.drop_last() =~= Seq::<Frame>::empty());
        reveal_with_fuel(frames_scan, 2);
        let below = scan_children(*of, 0);
        assert(frames_scan(frames@).errors =~= below.errors);
        assert(before + own_errors(*of, under_error) + below.errors =~= want);
    }
    loop
        invariant
            want == errors_model(old(into)@) + scan(*of, under_error).errors,
            errors_model(into@) + frames_scan(frames@).errors == want,
        decreases frames_scan(frames@).work,
    {
        let ghost all = frames@;
        let ghost emitted = errors_model(into@);
        let frame = match frames.pop() {
            Some(f) => f,
            None => {
                proof {
                    assert(emitted + Seq::<AnnParsingErrorV>::empty() =~= emitted);
                }
                return ;
            },
        };
        let ghost rest = frames_scan(frames@);
        let ghost top = scan_children(*frame.parent, frame.next as int);
        proof {
            assert(all.last() == frame);
            assert(all.drop_last() =~= frames@);
            assert(frames_scan(all).errors == top.errors + rest.errors);
            assert(frames_scan(all).work == top.work + rest.work);
        }
        if frame.next < frame.parent.children.len() {
            let child = &frame.parent.children[frame.next];
            push_own_errors(child, frame.parent.error, into);
            let ghost below = scan_children(*child, 0);
            let ghost after = scan_children(*frame.parent, frame.next + 1);
            let ghost own = own_errors(*child, frame.parent.error);
            let ghost base = frames@;
            frames.push(Frame { parent: frame.parent, next: frame.next + 1 });
            let ghost mid = frames@;
            frames.push(Frame { parent: child, next: 0 });
            proof {
                let first = scan(*child, frame.parent.error);
                assert(top.errors == first.errors + after.errors);
                assert(top.work == first.work + after.work);
                assert(first.errors == own + below.errors);
                assert(first.work == below.work + 1);
                assert(frames@.last().parent == child);
                assert(frames@.drop_last() =~= mid);
                assert(mid.drop_last() =~= base);
                assert(frames_scan(mid).errors == after.errors + rest.errors);
                assert(frames_scan(frames@).errors == below.errors + (after.errors + rest.errors));
                assert(errors_model(into@) == emitted + own);
                assert(emitted + own + (below.errors + (after.errors + rest.errors)) =~= emitted + ((
                own + below.errors) + after.errors + rest.errors));
            }
        } else {
            proof {
                assert(top.errors =~= Seq::<AnnParsingErrorV>::empty());
                assert(top.work == 1);
                assert(emitted + (top.errors + rest.errors) =~= emitted + rest.errors);
            }
        }
    }
}

} // verus!
