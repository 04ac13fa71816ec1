//! The concrete syntax tree that the driver reads.
//!
//! A grammar-driven front end produces a tree of generic nodes. The crate
//! keeps of each node what the driver looks at: what kind of node it is,
//! under which field it hangs on its parent, whether it is named, an error or
//! a missing token, where it stands, and its text.
use vstd::prelude::*;
use crate::SourceSpan;
use crate::text::{chars_eq, chars_of};

verus! {

/// The kind of a syntax node: one per production of the grammar that the driver knows.
#[derive(Debug, Clone, Copy, PartialEq, Eq, Structural)]
pub enum NodeKind {
    Block,
    Wildcard,
    Var,
    Nil,
    Unit,
    SimpleType,
    BoolLiteral,
    LongLiteral,
    StringLiteral,
    UriLiteral,
    Par,
    Eval,
    Quote,
    Method,
    Or,
    And,
    Matches,
    Eq,
    Neq,
    Lt,
    Lte,
    Gt,
    Gte,
    Concat,
    Diff,
    Add,
    Sub,
    Interpolation,
    Mult,
    Div,
    Mod,
    Disjunction,
    Conjunction,
    Neg,
    Not,
    Negation,
    Collection,
    List,
    SetOf,
    Tuple,
    MapOf,
    KeyValuePair,
    Send,
    SendSingle,
    SendMultiple,
    New,
    Contract,
    IfElse,
    Input,
    LinearBind,
    RepeatedBind,
    PeekBind,
    SimpleSource,
    ReceiveSendSource,
    SendReceiveSource,
    Match,
    Case,
    Let,
    ConcDecls,
    Bundle,
    BundleWrite,
    BundleRead,
    BundleEquiv,
    BundleReadWrite,
    SendSync,
    EmptyCont,
    NonEmptyCont,
    VarRef,
    Error,
    /// Any other node: punctuation, keywords, comments.
    Other,
}

/// The field under which a node hangs on its parent.
#[derive(Debug, Clone, Copy, PartialEq, Eq, Structural)]
pub enum Field {
    Receiver,
    Name,
    Args,
    Remainder,
    Channel,
    SendType,
    Inputs,
    Decls,
    Proc,
    Formals,
    Cont,
    Condition,
    Consequence,
    Alternative,
    Receipts,
    Expression,
    Cases,
    Pattern,
    Key,
    Value,
    BundleType,
    Uri,
    /// A field that the driver does not look at.
    Other,
}

/// The kind that the grammar calls `name`.
pub open spec fn kind_of_name(name: Seq<char>) -> NodeKind {
    if name == "block"@ {
        NodeKind::Block
    } else if name == "wildcard"@ {
        NodeKind::Wildcard
    } else if name == "var"@ {
        NodeKind::Var
    } else if name == "nil"@ {
        NodeKind::Nil
    } else if name == "unit"@ {
        NodeKind::Unit
    } else if name == "simple_type"@ {
        NodeKind::SimpleType
    } else if name == "bool_literal"@ {
        NodeKind::BoolLiteral
    } else if name == "long_literal"@ {
        NodeKind::LongLiteral
    } else if name == "string_literal"@ {
        NodeKind::StringLiteral
    } else if name == "uri_literal"@ {
        NodeKind::UriLiteral
    } else if name == "par"@ {
        NodeKind::Par
    } else if name == "eval"@ {
        NodeKind::Eval
    } else if name == "quote"@ {
        NodeKind::Quote
    } else if name == "method"@ {
        NodeKind::Method
    } else if name == "or"@ {
        NodeKind::Or
    } else if name == "and"@ {
        NodeKind::And
    } else if name == "matches"@ {
        NodeKind::Matches
    } else if name == "eq"@ {
        NodeKind::Eq
    } else if name == "neq"@ {
        NodeKind::Neq
    } else if name == "lt"@ {
        NodeKind::Lt
    } else if name == "lte"@ {
        NodeKind::Lte
    } else if name == "gt"@ {
        NodeKind::Gt
    } else if name == "gte"@ {
        NodeKind::Gte
    } else if name == "concat"@ {
        NodeKind::Concat
    } else if name == "diff"@ {
        NodeKind::Diff
    } else if name == "add"@ {
        NodeKind::Add
    } else if name == "sub"@ {
        NodeKind::Sub
    } else if name == "interpolation"@ {
        NodeKind::Interpolation
    } else if name == "mult"@ {
        NodeKind::Mult
    } else if name == "div"@ {
        NodeKind::Div
    } else if name == "mod"@ {
        NodeKind::Mod
    } else if name == "disjunction"@ {
        NodeKind::Disjunction
    } else if name == "conjunction"@ {
        NodeKind::Conjunction
    } else if name == "neg"@ {
        NodeKind::Neg
    } else if name == "not"@ {
        NodeKind::Not
    } else if name == "negation"@ {
        NodeKind::Negation
    } else if name == "collection"@ {
        NodeKind::Collection
    } else if name == "list"@ {
        NodeKind::List
    } else if name == "set"@ {
        NodeKind::SetOf
    } else if name == "tuple"@ {
        NodeKind::Tuple
    } else if name == "map"@ {
        NodeKind::MapOf
    } else if name == "key_value_pair"@ {
        NodeKind::KeyValuePair
    } else if name == "send"@ {
        NodeKind::Send
    } else if name == "send_single"@ {
        NodeKind::SendSingle
    } else if name == "send_multiple"@ {
        NodeKind::SendMultiple
    } else if name == "new"@ {
        NodeKind::New
    } else if name == "contract"@ {
        NodeKind::Contract
    } else if name == "ifElse"@ {
        NodeKind::IfElse
    } else if name == "input"@ {
        NodeKind::Input
    } else if name == "linear_bind"@ {
        NodeKind::LinearBind
    } else if name == "repeated_bind"@ {
        NodeKind::RepeatedBind
    } else if name == "peek_bind"@ {
        NodeKind::PeekBind
    } else if name == "simple_source"@ {
        NodeKind::SimpleSource
    } else if name == "receive_send_source"@ {
        NodeKind::ReceiveSendSource
    } else if name == "send_receive_source"@ {
        NodeKind::SendReceiveSource
    } else if name == "match"@ {
        NodeKind::Match
    } else if name == "case"@ {
        NodeKind::Case
    } else if name == "let"@ {
        NodeKind::Let
    } else if name == "conc_decls"@ {
        NodeKind::ConcDecls
    } else if name == "bundle"@ {
        NodeKind::Bundle
    } else if name == "bundle_write"@ {
        NodeKind::BundleWrite
    } else if name == "bundle_read"@ {
        NodeKind::BundleRead
    } else if name == "bundle_equiv"@ {
        NodeKind::BundleEquiv
    } else if name == "bundle_read_write"@ {
        NodeKind::BundleReadWrite
    } else if name == "send_sync"@ {
        NodeKind::SendSync
    } else if name == "empty_cont"@ {
        NodeKind::EmptyCont
    } else if name == "non_empty_cont"@ {
        NodeKind::NonEmptyCont
    } else if name == "var_ref"@ {
        NodeKind::VarRef
    } else if name == "ERROR"@ {
        NodeKind::Error
    } else {
        NodeKind::Other
    }
}

/// The field that the grammar calls `name`.
pub open spec fn field_of_name(name: Seq<char>) -> Field {
    if name == "receiver"@ {
        Field::Receiver
    } else if name == "name"@ {
        Field::Name
    } else if name == "args"@ {
        Field::Args
    } else if name == "remainder"@ {
        Field::Remainder
    } else if name == "channel"@ {
        Field::Channel
    } else if name == "send_type"@ {
        Field::SendType
    } else if name == "inputs"@ {
        Field::Inputs
    } else if name == "decls"@ {
        Field::Decls
    } else if name == "proc"@ {
        Field::Proc
    } else if name == "formals"@ {
        Field::Formals
    } else if name == "cont"@ {
        Field::Cont
    } else if name == "condition"@ {
        Field::Condition
    } else if name == "consequence"@ {
        Field::Consequence
    } else if name == "alternative"@ {
        Field::Alternative
    } else if name == "receipts"@ {
        Field::Receipts
    } else if name == "expression"@ {
        Field::Expression
    } else if name == "cases"@ {
        Field::Cases
    } else if name == "pattern"@ {
        Field::Pattern
    } else if name == "key"@ {
        Field::Key
    } else if name == "value"@ {
        Field::Value
    } else if name == "bundle_type"@ {
        Field::BundleType
    } else if name == "uri"@ {
        Field::Uri
    } else {
        Field::Other
    }
}

/// Looks up a node kind by the name that the grammar gives it.
pub fn kind(name: &str) -> (r: NodeKind)
    ensures
        r == kind_of_name(name@),
{
    let n = chars_of(name);
    if chars_eq(&n, "block") {
        NodeKind::Block
    } else if chars_eq(&n, "wildcard") {
        NodeKind::Wildcard
    } else if chars_eq(&n, "var") {
        NodeKind::Var
    } else if chars_eq(&n, "nil") {
        NodeKind::Nil
    } else if chars_eq(&n, "unit") {
        NodeKind::Unit
    } else if chars_eq(&n, "simple_type") {
        NodeKind::SimpleType
    } else if chars_eq(&n, "bool_literal") {
        NodeKind::BoolLiteral
    } else if chars_eq(&n, "long_literal") {
        NodeKind::LongLiteral
    } else if chars_eq(&n, "string_literal") {
        NodeKind::StringLiteral
    } else if chars_eq(&n, "uri_literal") {
        NodeKind::UriLiteral
    } else if chars_eq(&n, "par") {
        NodeKind::Par
    } else if chars_eq(&n, "eval") {
        NodeKind::Eval
    } else if chars_eq(&n, "quote") {
        NodeKind::Quote
    } else if chars_eq(&n, "method") {
        NodeKind::Method
    } else if chars_eq(&n, "or") {
        NodeKind::Or
    } else if chars_eq(&n, "and") {
        NodeKind::And
    } else if chars_eq(&n, "matches") {
        NodeKind::Matches
    } else if chars_eq(&n, "eq") {
        NodeKind::Eq
    } else if chars_eq(&n, "neq") {
        NodeKind::Neq
    } else if chars_eq(&n, "lt") {
        NodeKind::Lt
    } else if chars_eq(&n, "lte") {
        NodeKind::Lte
    } else if chars_eq(&n, "gt") {
        NodeKind::Gt
    } else if chars_eq(&n, "gte") {
        NodeKind::Gte
    } else if chars_eq(&n, "concat") {
        NodeKind::Concat
    } else if chars_eq(&n, "diff") {
        NodeKind::Diff
    } else if chars_eq(&n, "add") {
        NodeKind::Add
    } else if chars_eq(&n, "sub") {
        NodeKind::Sub
    } else if chars_eq(&n, "interpolation") {
        NodeKind::Interpolation
    } else if chars_eq(&n, "mult") {
        NodeKind::Mult
    } else if chars_eq(&n, "div") {
        NodeKind::Div
    } else if chars_eq(&n, "mod") {
        NodeKind::Mod
    } else if chars_eq(&n, "disjunction") {
        NodeKind::Disjunction
    } else if chars_eq(&n, "conjunction") {
        NodeKind::Conjunction
    } else if chars_eq(&n, "neg") {
        NodeKind::Neg
    } else if chars_eq(&n, "not") {
        NodeKind::Not
    } else if chars_eq(&n, "negation") {
        NodeKind::Negation
    } else if chars_eq(&n, "collection") {
        NodeKind::Collection
    } else if chars_eq(&n, "list") {
        NodeKind::List
    } else if chars_eq(&n, "set") {
        NodeKind::SetOf
    } else if chars_eq(&n, "tuple") {
        NodeKind::Tuple
    } else if chars_eq(&n, "map") {
        NodeKind::MapOf
    } else if chars_eq(&n, "key_value_pair") {
        NodeKind::KeyValuePair
    } else if chars_eq(&n, "send") {
        NodeKind::Send
    } else if chars_eq(&n, "send_single") {
        NodeKind::SendSingle
    } else if chars_eq(&n, "send_multiple") {
        NodeKind::SendMultiple
    } else if chars_eq(&n, "new") {
        NodeKind::New
    } else if chars_eq(&n, "contract") {
        NodeKind::Contract
    } else if chars_eq(&n, "ifElse") {
        NodeKind::IfElse
    } else if chars_eq(&n, "input") {
        NodeKind::Input
    } else if chars_eq(&n, "linear_bind") {
        NodeKind::LinearBind
    } else if chars_eq(&n, "repeated_bind") {
        NodeKind::RepeatedBind
    } else if chars_eq(&n, "peek_bind") {
        NodeKind::PeekBind
    } else if chars_eq(&n, "simple_source") {
        NodeKind::SimpleSource
    } else if chars_eq(&n, "receive_send_source") {
        NodeKind::ReceiveSendSource
    } else if chars_eq(&n, "send_receive_source") {
        NodeKind::SendReceiveSource
    } else if chars_eq(&n, "match") {
        NodeKind::Match
    } else if chars_eq(&n, "case") {
        NodeKind::Case
    } else if chars_eq(&n, "let") {
        NodeKind::Let
    } else if chars_eq(&n, "conc_decls") {
        NodeKind::ConcDecls
    } else if chars_eq(&n, "bundle") {
        NodeKind::Bundle
    } else if chars_eq(&n, "bundle_write") {
        NodeKind::BundleWrite
    } else if chars_eq(&n, "bundle_read") {
        NodeKind::BundleRead
    } else if chars_eq(&n, "bundle_equiv") {
        NodeKind::BundleEquiv
    } else if chars_eq(&n, "bundle_read_write") {
        NodeKind::BundleReadWrite
    } else if chars_eq(&n, "send_sync") {
        NodeKind::SendSync
    } else if chars_eq(&n, "empty_cont") {
        NodeKind::EmptyCont
    } else if chars_eq(&n, "non_empty_cont") {
        NodeKind::NonEmptyCont
    } else if chars_eq(&n, "var_ref") {
        NodeKind::VarRef
    } else if chars_eq(&n, "ERROR") {
        NodeKind::Error
    } else {
        NodeKind::Other
    }
}

/// Looks up a field by the name that the grammar gives it.
pub fn field(name: &str) -> (r: Field)
    ensures
        r == field_of_name(name@),
{
    let n = chars_of(name);
    if chars_eq(&n, "receiver") {
        Field::Receiver
    } else if chars_eq(&n, "name") {
        Field::Name
    } else if chars_eq(&n, "args") {
        Field::Args
    } else if chars_eq(&n, "remainder") {
        Field::Remainder
    } else if chars_eq(&n, "channel") {
        Field::Channel
    } else if chars_eq(&n, "send_type") {
        Field::SendType
    } else if chars_eq(&n, "inputs") {
        Field::Inputs
    } else if chars_eq(&n, "decls") {
        Field::Decls
    } else if chars_eq(&n, "proc") {
        Field::Proc
    } else if chars_eq(&n, "formals") {
        Field::Formals
    } else if chars_eq(&n, "cont") {
        Field::Cont
    } else if chars_eq(&n, "condition") {
        Field::Condition
    } else if chars_eq(&n, "consequence") {
        Field::Consequence
    } else if chars_eq(&n, "alternative") {
        Field::Alternative
    } else if chars_eq(&n, "receipts") {
        Field::Receipts
    } else if chars_eq(&n, "expression") {
        Field::Expression
    } else if chars_eq(&n, "cases") {
        Field::Cases
    } else if chars_eq(&n, "pattern") {
        Field::Pattern
    } else if chars_eq(&n, "key") {
        Field::Key
    } else if chars_eq(&n, "value") {
        Field::Value
    } else if chars_eq(&n, "bundle_type") {
        Field::BundleType
    } else if chars_eq(&n, "uri") {
        Field::Uri
    } else {
        Field::Other
    }
}

/// One node of the concrete syntax tree, with its subtree.
#[derive(Debug, PartialEq, Eq)]
pub struct CstNode {
    pub kind: NodeKind,
    /// The field under which the node hangs on its parent, if any.
    pub field: Option<Field>,
    /// Named nodes carry meaning; the others are punctuation and keywords.
    pub named: bool,
    /// Set on a node that stands for text the grammar could not read.
    pub error: bool,
    /// Set on a token that the grammar expected and did not find.
    pub missing: bool,
    pub span: SourceSpan,
    /// The source text that the node covers.
    pub text: String,
    /// The name that the grammar gives the node; for a token, the token itself.
    pub grammar_name: String,
    /// The subtree as an s-expression; consulted for error nodes only.
    pub sexp: String,
    pub children: Vec<CstNode>,
}

/// The named nodes among `nodes[from..]`, in order.
pub open spec fn named_from(nodes: Seq<CstNode>, from: int) -> Seq<CstNode>
    decreases nodes.len() - from,
{
    if from < 0 || from >= nodes.len() {
        Seq::empty()
    } else if nodes[from].named {
        seq![nodes[from]] + named_from(nodes, from + 1)
    } else {
        named_from(nodes, from + 1)
    }
}

/// The position, at or after `from`, of the first named node of `nodes`.
pub open spec fn next_named(nodes: Seq<CstNode>, from: int) -> Option<int>
    decreases nodes.len() - from,
{
    if from < 0 || from >= nodes.len() {
        None
    } else if nodes[from].named {
        Some(from)
    } else {
        next_named(nodes, from + 1)
    }
}

/// The position, at or after `from`, of the first node of `nodes` that hangs
/// under `field`.
pub open spec fn field_position(nodes: Seq<CstNode>, field: Field, from: int) -> Option<int>
    decreases nodes.len() - from,
{
    if from < 0 || from >= nodes.len() {
        None
    } else if nodes[from].field == Some(field) {
        Some(from)
    } else {
        field_position(nodes, field, from + 1)
    }
}

impl CstNode {
    /// The named children, in order.
    pub open spec fn named_children(&self) -> Seq<CstNode> {
        named_from(self.children@, 0)
    }

    /// The first child that hangs under `field`.
    pub open spec fn field_child(&self, field: Field) -> Option<CstNode> {
        match field_position(self.children@, field, 0) {
            Some(i) => Some(self.children@[i]),
            None => None,
        }
    }

    /// The first named child.
    pub open spec fn first_named(&self) -> Option<CstNode> {
        if self.named_children().len() > 0 {
            Some(self.named_children()[0])
        } else {
            None
        }
    }

    /// Whether the node cannot be evaluated: it marks an error or a missing
    /// token.
    pub open spec fn is_bad(&self) -> bool {
        self.error || self.missing
    }

    /// A leaf without children; the caller fills in what it knows.
    pub fn leaf(kind: NodeKind, span: SourceSpan, text: String, grammar_name: String) -> (r: CstNode)
        ensures
            r.kind == kind,
            r.field is None,
            r.named,
            !r.error,
            !r.missing,
            r.span == span,
            r.text == text,
            r.grammar_name == grammar_name,
            r.sexp@.len() == 0,
            r.children@.len() == 0,
    {
        CstNode {
            kind,
            field: None,
            named: true,
            error: false,
            missing: false,
            span,
            text,
            grammar_name,
            sexp: String::new(),
            children: Vec::new(),
        }
    }

    /// The position of the first named child at or after `from`.
    pub fn next_named_child(&self, from: usize) -> (r: Option<usize>)
        ensures
            match r {
                Some(i) => next_named(self.children@, from as int) == Some(i as int) && from <= i
                    < self.children@.len() && self.children@[i as int].named,
                None => next_named(self.children@, from as int) is None,
            },
    {
        let mut i: usize = from;
        while i < self.children.len()
            invariant
                from <= i,
                next_named(self.children@, from as int) == next_named(self.children@, i as int),
            decreases self.children@.len() - i,
        {
            if self.children[i].named {
                return Some(i);
            }
            i += 1;
        }
        None
    }

    /// How many named children the node has.
    pub fn named_child_count(&self) -> (r: usize)
        ensures
            r == self.named_children().len(),
    {
        let mut count: usize = 0;
        let mut i: usize = 0;
        while i < self.children.len()
            invariant
                i <= self.children@.len(),
                count <= i,
                self.named_children().len() == count + named_from(self.children@, i as int).len(),
            decreases self.children@.len() - i,
        {
            if self.children[i].named {
                count += 1;
            }
            i += 1;
        }
        count
    }

    /// The `index`-th named child, counting from zero.
    pub fn named_child(&self, index: usize) -> (r: Option<&CstNode>)
        ensures
            match r {
                Some(c) => index < self.named_children().len() && *c == self.named_children()[index as int],
                None => index >= self.named_children().len(),
            },
    {
        let mut seen: usize = 0;
        let mut i: usize = 0;
        while i < self.children.len()
            invariant
                i <= self.children@.len(),
                seen <= i,
                seen <= index,
                self.named_children().len() == seen + named_from(self.children@, i as int).len(),
                index < self.named_children().len() ==> index - seen < named_from(
                    self.children@,
                    i as int,
                ).len() && self.named_children()[index as int] == named_from(self.children@, i as int)[index
                    - seen],
            decreases self.children@.len() - i,
        {
            if self.children[i].named {
                if seen == index {
                    return Some(&self.children[i]);
                }
                seen += 1;
            }
            i += 1;
        }
        None
    }

    /// The first child that hangs under `field`.
    pub fn child_by_field(&self, field: Field) -> (r: Option<&CstNode>)
        ensures
            match r {
                Some(c) => self.field_child(field) == Some(*c),
                None => self.field_child(field) is None,
            },
    {
        let mut i: usize = 0;
        while i < self.children.len()
            invariant
                i <= self.children@.len(),
                field_position(self.children@, field, 0) == field_position(self.children@, field, i as int),
            decreases self.children@.len() - i,
        {
            let hit = match self.children[i].field {
                Some(f) => f == field,
                None => false,
            };
            if hit {
                return Some(&self.children[i]);
            }
            i += 1;
        }
        None
    }

    /// The text that the node covers.
    pub fn text(&self) -> (r: &str)
        ensures
            r@ == self.text@,
    {
        self.text.as_str()
    }
}

/// How many nodes a tree holds.
pub open spec fn tree_size(node: CstNode) -> nat
    decreases node,
{
    1 + forest_size(node.children@)
}

/// How many nodes a run of trees holds.
pub open spec fn forest_size(trees: Seq<CstNode>) -> nat
    decreases trees,
{
    if trees.len() == 0 {
        0
    } else {
        forest_size(trees.drop_last()) + tree_size(trees.last())
    }
}

impl CstNode {
    /// Takes the tree apart node by node. A tree that is simply dropped is
    /// taken apart by recursion, as deep as the tree is; this way the depth
    /// of the tree does not matter.
    pub fn dismantle(self) {
        let mut open: Vec<CstNode> = Vec::new();
        open.push(self);
        while open.len() > 0
            decreases forest_size(open@),
        {
            let ghost before = open@;
            let mut node = match open.pop() {
                Some(n) => n,
                None => {
                    return ;
                },
            };
            proof {
                assert(open@ =~= before.drop_last());
                assert(node == before.last());
            }
            proof {
                assert(forest_size(before) == forest_size(before.drop_last()) + tree_size(
                    before.last(),
                ));
                assert(tree_size(node) == 1 + forest_size(node.children@));
            }
            while node.children.len() > 0
                invariant
                    forest_size(open@) + forest_size(node.children@) + 1 == forest_size(before),
                decreases node.children@.len(),
            {
                let ghost kids = node.children@;
                let ghost stack = open@;
                match node.children.pop() {
                    Some(child) => {
                        proof {
                            assert(node.children@ =~= kids.drop_last());
                            assert(child == kids.last());
                            assert(stack.push(child).drop_last() =~= stack);
                            assert(forest_size(kids) == forest_size(kids.drop_last()) + tree_size(
                                kids.last(),
                            ));
                            assert(forest_size(stack.push(child)) == forest_size(stack) + tree_size(
                                child,
                            ));
                        }
                        open.push(child);
                    },
                    None => {},
                }
            }
        }
    }
}

} // verus!
