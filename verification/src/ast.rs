//! The abstract syntax tree of a Rholang process, and its mathematical model.
//!
//! Every executable type `T` here has a ghost twin `TV` built from sequences
//! and plain values; `model` maps a value to its twin and `@` is short for
//! it. Contracts throughout the crate are stated over the twins.
use vstd::prelude::*;
use vstd::string::StringExecFns;
use crate::{SourcePos, SourceSpan};

verus! {

// ---------------------------------------------------------------------------
// Plain tags
// ---------------------------------------------------------------------------

#[derive(Debug, PartialEq, Eq, Clone, Copy, Structural)]
pub enum UnaryExpOp {
    Not,
    Neg,
    Negation,
}

#[derive(Debug, PartialEq, Eq, Clone, Copy, Structural)]
pub enum BinaryExpOp {
    Or,
    And,
    Matches,
    Eq,
    Neq,
    Lt,
    Lte,
    Gt,
    Gte,
    Concat,
    Diff,
    Add,
    Sub,
    Interpolation,
    Mult,
    Div,
    Mod,
    Disjunction,
    Conjunction,
}

#[derive(Debug, PartialEq, Eq, Clone, Copy, Structural)]
pub enum SimpleType {
    Bool,
    Int,
    String,
    Uri,
    ByteArray,
}

#[derive(Debug, PartialEq, Eq, Clone, Copy, Structural)]
pub enum SendType {
    Single,
    Multiple,
}

#[derive(Debug, PartialEq, Eq, Clone, Copy, Structural)]
pub enum BundleType {
    BundleEquiv,
    BundleWrite,
    BundleRead,
    BundleReadWrite,
}

#[derive(Debug, PartialEq, Eq, Clone, Copy, Structural)]
pub enum VarRefKind {
    Proc,
    Name,
}

// ---------------------------------------------------------------------------
// Executable tree
// ---------------------------------------------------------------------------

/// An identifier together with the place where it was written.
#[derive(Debug, Clone, Copy, PartialEq, Eq)]
pub struct Id<'ast> {
    pub name: &'ast str,
    pub pos: SourcePos,
}

/// A process variable: a named one or the wildcard `_`.
#[derive(Debug, PartialEq, Eq, Clone, Copy)]
pub enum Var<'ast> {
    Wildcard,
    Id(Id<'ast>),
}

/// A URI literal, kept without its surrounding backticks.
#[derive(Debug, PartialEq, Eq, Clone, Copy)]
pub struct Uri<'ast>(pub &'ast str);

/// A channel reference: a variable or a quoted process.
#[derive(Debug, PartialEq, Eq, Clone, Copy)]
pub enum Name<'ast> {
    ProcVar(Var<'ast>),
    Quote(&'ast Proc<'ast>),
}

/// A name with the span it was read from.
#[derive(Debug, PartialEq, Eq, Clone, Copy)]
pub struct AnnName<'ast> {
    pub name: Name<'ast>,
    pub span: SourceSpan,
}

/// A list of names with an optional remainder variable (`x, y ...@z`).
#[derive(Debug, PartialEq, Eq, Clone)]
pub struct Names<'ast> {
    pub names: Vec<AnnName<'ast>>,
    pub remainder: Option<Var<'ast>>,
}

/// One receipt of a for-comprehension: the binds that are joined by `&`.
#[derive(Debug, PartialEq, Eq, Clone)]
pub struct Receipt<'ast> {
    pub binds: Vec<Bind<'ast>>,
}

#[derive(Debug, PartialEq, Eq, Clone)]
pub enum Bind<'ast> {
    Linear { lhs: Names<'ast>, rhs: Source<'ast> },
    Repeated { lhs: Names<'ast>, rhs: AnnName<'ast> },
    Peek { lhs: Names<'ast>, rhs: AnnName<'ast> },
}

#[derive(Debug, PartialEq, Eq, Clone)]
pub enum Source<'ast> {
    Simple { name: AnnName<'ast> },
    ReceiveSend { name: AnnName<'ast> },
    SendReceive { name: AnnName<'ast>, inputs: Vec<AnnProc<'ast>> },
}

/// One case of a `match`.
#[derive(Debug, PartialEq, Eq, Clone, Copy)]
pub struct Case<'ast> {
    pub pattern: AnnProc<'ast>,
    pub proc: AnnProc<'ast>,
}

#[derive(Debug, PartialEq, Eq, Clone)]
pub struct SelectPattern<'ast> {
    pub lhs: Names<'ast>,
    pub rhs: Source<'ast>,
}

/// One branch of a `select`.
#[derive(Debug, PartialEq, Eq, Clone)]
pub struct Branch<'ast> {
    pub patterns: Vec<SelectPattern<'ast>>,
    pub proc: AnnProc<'ast>,
}

#[derive(Debug, PartialEq, Eq, Clone)]
pub enum Collection<'ast> {
    List { elements: Vec<AnnProc<'ast>>, remainder: Option<Var<'ast>> },
    Tuple(Vec<AnnProc<'ast>>),
    SetOf { elements: Vec<AnnProc<'ast>>, remainder: Option<Var<'ast>> },
    MapOf { elements: Vec<(AnnProc<'ast>, AnnProc<'ast>)>, remainder: Option<Var<'ast>> },
}

#[derive(Debug, PartialEq, Eq, Clone)]
pub enum LetBinding<'ast> {
    Single { lhs: AnnName<'ast>, rhs: AnnProc<'ast> },
    Multiple { lhs: Var<'ast>, rhs: Vec<AnnProc<'ast>> },
}

/// A name declared by `new`, with its optional URI.
#[derive(Debug, Clone, Copy, PartialEq, Eq)]
pub struct NameDecl<'ast> {
    pub id: Id<'ast>,
    pub uri: Option<Uri<'ast>>,
}

#[derive(Debug, PartialEq, Eq, Clone, Copy)]
pub enum SyncSendCont<'ast> {
    Empty,
    NonEmpty(AnnProc<'ast>),
}

/// A process term.
#[derive(Debug, PartialEq, Eq, Clone)]
pub enum Proc<'ast> {
    Nil,
    Unit,
    BoolLiteral(bool),
    LongLiteral(i64),
    StringLiteral(&'ast str),
    UriLiteral(Uri<'ast>),
    SimpleType(SimpleType),
    Collection(Collection<'ast>),
    ProcVar(Var<'ast>),
    Par { left: AnnProc<'ast>, right: AnnProc<'ast> },
    IfThenElse { condition: AnnProc<'ast>, if_true: AnnProc<'ast>, if_false: Option<AnnProc<'ast>> },
    Send { channel: AnnName<'ast>, send_type: SendType, inputs: Vec<AnnProc<'ast>> },
    ForComprehension { receipts: Vec<Receipt<'ast>>, proc: AnnProc<'ast> },
    Match { expression: AnnProc<'ast>, cases: Vec<Case<'ast>> },
    Select { branches: Vec<Branch<'ast>> },
    Bundle { bundle_type: BundleType, proc: AnnProc<'ast> },
    Let { bindings: Vec<LetBinding<'ast>>, body: AnnProc<'ast>, concurrent: bool },
    New { decls: Vec<NameDecl<'ast>>, proc: AnnProc<'ast> },
    Contract { name: AnnName<'ast>, formals: Names<'ast>, body: AnnProc<'ast> },
    SendSync { channel: AnnName<'ast>, messages: Vec<AnnProc<'ast>>, cont: SyncSendCont<'ast> },
    Eval { name: AnnName<'ast> },
    Quote { proc: &'ast Proc<'ast> },
    Method { receiver: AnnProc<'ast>, name: Id<'ast>, args: Vec<AnnProc<'ast>> },
    UnaryExp { op: UnaryExpOp, arg: &'ast Proc<'ast> },
    BinaryExp { op: BinaryExpOp, left: AnnProc<'ast>, right: AnnProc<'ast> },
    VarRef { kind: VarRefKind, var: Id<'ast> },
    /// Stands where a subtree could not be read.
    Bad,
}

/// A process with the span it was read from.
#[derive(Debug, PartialEq, Eq, Clone, Copy)]
pub struct AnnProc<'ast> {
    pub proc: &'ast Proc<'ast>,
    pub span: SourceSpan,
}

// ---------------------------------------------------------------------------
// Ghost twins
// ---------------------------------------------------------------------------

pub ghost struct IdV {
    pub name: Seq<char>,
    pub pos: SourcePos,
}

pub ghost enum VarV {
    Wildcard,
    Id(IdV),
}

pub ghost enum NameV {
    ProcVar(VarV),
    Quote(Box<ProcV>),
}

pub ghost struct AnnNameV {
    pub name: NameV,
    pub span: SourceSpan,
}

pub ghost struct NamesV {
    pub names: Seq<AnnNameV>,
    pub remainder: Option<VarV>,
}

pub ghost struct ReceiptV {
    pub binds: Seq<BindV>,
}

pub ghost enum BindV {
    Linear { lhs: NamesV, rhs: SourceV },
    Repeated { lhs: NamesV, rhs: AnnNameV },
    Peek { lhs: NamesV, rhs: AnnNameV },
}

pub ghost enum SourceV {
    Simple { name: AnnNameV },
    ReceiveSend { name: AnnNameV },
    SendReceive { name: AnnNameV, inputs: Seq<AnnProcV> },
}

pub ghost struct CaseV {
    pub pattern: AnnProcV,
    pub proc: AnnProcV,
}

pub ghost struct SelectPatternV {
    pub lhs: NamesV,
    pub rhs: SourceV,
}

pub ghost struct BranchV {
    pub patterns: Seq<SelectPatternV>,
    pub proc: AnnProcV,
}

pub ghost enum CollectionV {
    List { elements: Seq<AnnProcV>, remainder: Option<VarV> },
    Tuple(Seq<AnnProcV>),
    SetOf { elements: Seq<AnnProcV>, remainder: Option<VarV> },
    MapOf { elements: Seq<(AnnProcV, AnnProcV)>, remainder: Option<VarV> },
}

pub ghost enum LetBindingV {
    Single { lhs: AnnNameV, rhs: AnnProcV },
    Multiple { lhs: VarV, rhs: Seq<AnnProcV> },
}

pub ghost struct NameDeclV {
    pub id: IdV,
    pub uri: Option<Seq<char>>,
}

pub ghost enum SyncSendContV {
    Empty,
    NonEmpty(AnnProcV),
}

pub ghost enum ProcV {
    Nil,
    Unit,
    BoolLiteral(bool),
    LongLiteral(i64),
    StringLiteral(Seq<char>),
    UriLiteral(Seq<char>),
    SimpleType(SimpleType),
    Collection(CollectionV),
    ProcVar(VarV),
    Par { left: AnnProcV, right: AnnProcV },
    IfThenElse { condition: AnnProcV, if_true: AnnProcV, if_false: Option<AnnProcV> },
    Send { channel: AnnNameV, send_type: SendType, inputs: Seq<AnnProcV> },
    ForComprehension { receipts: Seq<ReceiptV>, proc: AnnProcV },
    Match { expression: AnnProcV, cases: Seq<CaseV> },
    Select { branches: Seq<BranchV> },
    Bundle { bundle_type: BundleType, proc: AnnProcV },
    Let { bindings: Seq<LetBindingV>, body: AnnProcV, concurrent: bool },
    New { decls: Seq<NameDeclV>, proc: AnnProcV },
    Contract { name: AnnNameV, formals: NamesV, body: AnnProcV },
    SendSync { channel: AnnNameV, messages: Seq<AnnProcV>, cont: SyncSendContV },
    Eval { name: AnnNameV },
    Quote { proc: Box<ProcV> },
    Method { receiver: AnnProcV, name: IdV, args: Seq<AnnProcV> },
    UnaryExp { op: UnaryExpOp, arg: Box<ProcV> },
    BinaryExp { op: BinaryExpOp, left: AnnProcV, right: AnnProcV },
    VarRef { kind: VarRefKind, var: IdV },
    Bad,
}

pub ghost struct AnnProcV {
    pub proc: Box<ProcV>,
    pub span: SourceSpan,
}

// ---------------------------------------------------------------------------
// From tree to twin
// ---------------------------------------------------------------------------

impl<'ast> Id<'ast> {
    pub open spec fn model(&self) -> IdV {
        IdV { name: self.name@, pos: self.pos }
    }
}

impl<'ast> Var<'ast> {
    pub open spec fn model(&self) -> VarV {
        match self {
            Var::Wildcard => VarV::Wildcard,
            Var::Id(id) => VarV::Id(id.model()),
        }
    }
}

/// The twin of an optional variable.
pub open spec fn opt_var_model(v: Option<Var>) -> Option<VarV> {
    match v {
        Some(v) => Some(v.model()),
        None => None,
    }
}

impl<'ast> NameDecl<'ast> {
    pub open spec fn model(&self) -> NameDeclV {
        NameDeclV {
            id: self.id.model(),
            uri: match self.uri {
                Some(u) => Some(u.0@),
                None => None,
            },
        }
    }
}

impl<'ast> Name<'ast> {
    pub open spec fn model(&self) -> NameV
        decreases self,
    {
        match self {
            Name::ProcVar(v) => NameV::ProcVar(v.model()),
            Name::Quote(p) => NameV::Quote(Box::new(p.model())),
        }
    }
}

impl<'ast> AnnName<'ast> {
    pub open spec fn model(&self) -> AnnNameV
        decreases self,
    {
        AnnNameV { name: self.name.model(), span: self.span }
    }
}

impl<'ast> Names<'ast> {
    pub open spec fn model(&self) -> NamesV
        decreases self,
    {
        NamesV {
            names: Seq::new(
                self.names@.len(),
                |i: int|
                    if 0 <= i < self.names@.len() {
                        self.names@[i].model()
                    } else {
                        arbitrary()
                    },
            ),
            remainder: opt_var_model(self.remainder),
        }
    }
}

impl<'ast> Source<'ast> {
    pub open spec fn model(&self) -> SourceV
        decreases self,
    {
        match self {
            Source::Simple { name } => SourceV::Simple { name: name.model() },
            Source::ReceiveSend { name } => SourceV::ReceiveSend { name: name.model() },
            Source::SendReceive { name, inputs } => SourceV::SendReceive {
                name: name.model(),
                inputs: Seq::new(
                    inputs@.len(),
                    |i: int|
                        if 0 <= i < inputs@.len() {
                            inputs@[i].model()
                        } else {
                            arbitrary()
                        },
                ),
            },
        }
    }
}

impl<'ast> Bind<'ast> {
    pub open spec fn model(&self) -> BindV
        decreases self,
    {
        match self {
            Bind::Linear { lhs, rhs } => BindV::Linear { lhs: lhs.model(), rhs: rhs.model() },
            Bind::Repeated { lhs, rhs } => BindV::Repeated { lhs: lhs.model(), rhs: rhs.model() },
            Bind::Peek { lhs, rhs } => BindV::Peek { lhs: lhs.model(), rhs: rhs.model() },
        }
    }
}

impl<'ast> Receipt<'ast> {
    pub open spec fn model(&self) -> ReceiptV
        decreases self,
    {
        ReceiptV {
            binds: Seq::new(
                self.binds@.len(),
                |i: int|
                    if 0 <= i < self.binds@.len() {
                        self.binds@[i].model()
                    } else {
                        arbitrary()
                    },
            ),
        }
    }
}

impl<'ast> Case<'ast> {
    pub open spec fn model(&self) -> CaseV
        decreases self,
    {
        CaseV { pattern: self.pattern.model(), proc: self.proc.model() }
    }
}

impl<'ast> SelectPattern<'ast> {
    pub open spec fn model(&self) -> SelectPatternV
        decreases self,
    {
        SelectPatternV { lhs: self.lhs.model(), rhs: self.rhs.model() }
    }
}

impl<'ast> Branch<'ast> {
    pub open spec fn model(&self) -> BranchV
        decreases self,
    {
        BranchV {
            patterns: Seq::new(
                self.patterns@.len(),
                |i: int|
                    if 0 <= i < self.patterns@.len() {
                        self.patterns@[i].model()
                    } else {
                        arbitrary()
                    },
            ),
            proc: self.proc.model(),
        }
    }
}

impl<'ast> Collection<'ast> {
    pub open spec fn model(&self) -> CollectionV
        decreases self,
    {
        match self {
            Collection::List { elements, remainder } => CollectionV::List {
                elements: Seq::new(
                    elements@.len(),
                    |i: int|
                        if 0 <= i < elements@.len() {
                            elements@[i].model()
                        } else {
                            arbitrary()
                        },
                ),
                remainder: opt_var_model(*remainder),
            },
            Collection::Tuple(elements) => CollectionV::Tuple(
                Seq::new(
                    elements@.len(),
                    |i: int|
                        if 0 <= i < elements@.len() {
                            elements@[i].model()
                        } else {
                            arbitrary()
                        },
                ),
            ),
            Collection::SetOf { elements, remainder } => CollectionV::SetOf {
                elements: Seq::new(
                    elements@.len(),
                    |i: int|
                        if 0 <= i < elements@.len() {
                            elements@[i].model()
                        } else {
                            arbitrary()
                        },
                ),
                remainder: opt_var_model(*remainder),
            },
            Collection::MapOf { elements, remainder } => CollectionV::MapOf {
                elements: Seq::new(
                    elements@.len(),
                    |i: int|
                        if 0 <= i < elements@.len() {
                            (elements@[i].0.model(), elements@[i].1.model())
                        } else {
                            arbitrary()
                        },
                ),
                remainder: opt_var_model(*remainder),
            },
        }
    }
}

impl<'ast> LetBinding<'ast> {
    pub open spec fn model(&self) -> LetBindingV
        decreases self,
    {
        match self {
            LetBinding::Single { lhs, rhs } => LetBindingV::Single {
                lhs: lhs.model(),
                rhs: rhs.model(),
            },
            LetBinding::Multiple { lhs, rhs } => LetBindingV::Multiple {
                lhs: lhs.model(),
                rhs: Seq::new(
                    rhs@.len(),
                    |i: int|
                        if 0 <= i < rhs@.len() {
                            rhs@[i].model()
                        } else {
                            arbitrary()
                        },
                ),
            },
        }
    }
}

impl<'ast> SyncSendCont<'ast> {
    pub open spec fn model(&self) -> SyncSendContV
        decreases self,
    {
        match self {
            SyncSendCont::Empty => SyncSendContV::Empty,
            SyncSendCont::NonEmpty(p) => SyncSendContV::NonEmpty(p.model()),
        }
    }
}

impl<'ast> AnnProc<'ast> {
    pub open spec fn model(&self) -> AnnProcV
        decreases self,
    {
        AnnProcV { proc: Box::new(self.proc.model()), span: self.span }
    }
}

impl<'ast> Proc<'ast> {
    pub open spec fn model(&self) -> ProcV
        decreases self,
    {
        match self {
            Proc::Nil => ProcV::Nil,
            Proc::Unit => ProcV::Unit,
            Proc::BoolLiteral(b) => ProcV::BoolLiteral(*b),
            Proc::LongLiteral(n) => ProcV::LongLiteral(*n),
            Proc::StringLiteral(s) => ProcV::StringLiteral(s@),
            Proc::UriLiteral(u) => ProcV::UriLiteral(u.0@),
            Proc::SimpleType(t) => ProcV::SimpleType(*t),
            Proc::Collection(c) => ProcV::Collection(c.model()),
            Proc::ProcVar(v) => ProcV::ProcVar(v.model()),
            Proc::Par { left, right } => ProcV::Par { left: left.model(), right: right.model() },
            Proc::IfThenElse { condition, if_true, if_false } => ProcV::IfThenElse {
                condition: condition.model(),
                if_true: if_true.model(),
                if_false: match if_false {
                    Some(p) => Some(p.model()),
                    None => None,
                },
            },
            Proc::Send { channel, send_type, inputs } => ProcV::Send {
                channel: channel.model(),
                send_type: *send_type,
                inputs: Seq::new(
                    inputs@.len(),
                    |i: int|
                        if 0 <= i < inputs@.len() {
                            inputs@[i].model()
                        } else {
                            arbitrary()
                        },
                ),
            },
            Proc::ForComprehension { receipts, proc } => ProcV::ForComprehension {
                receipts: Seq::new(
                    receipts@.len(),
                    |i: int|
                        if 0 <= i < receipts@.len() {
                            receipts@[i].model()
                        } else {
                            arbitrary()
                        },
                ),
                proc: proc.model(),
            },
            Proc::Match { expression, cases } => ProcV::Match {
                expression: expression.model(),
                cases: Seq::new(
                    cases@.len(),
                    |i: int|
                        if 0 <= i < cases@.len() {
                            cases@[i].model()
                        } else {
                            arbitrary()
                        },
                ),
            },
            Proc::Select { branches } => ProcV::Select {
                branches: Seq::new(
                    branches@.len(),
                    |i: int|
                        if 0 <= i < branches@.len() {
                            branches@[i].model()
                        } else {
                            arbitrary()
                        },
                ),
            },
            Proc::Bundle { bundle_type, proc } => ProcV::Bundle {
                bundle_type: *bundle_type,
                proc: proc.model(),
            },
            Proc::Let { bindings, body, concurrent } => ProcV::Let {
                bindings: Seq::new(
                    bindings@.len(),
                    |i: int|
                        if 0 <= i < bindings@.len() {
                            bindings@[i].model()
                        } else {
                            arbitrary()
                        },
                ),
                body: body.model(),
                concurrent: *concurrent,
            },
            Proc::New { decls, proc } => ProcV::New {
                decls: decls@.map_values(|d: NameDecl| d.model()),
                proc: proc.model(),
            },
            Proc::Contract { name, formals, body } => ProcV::Contract {
                name: name.model(),
                formals: formals.model(),
                body: body.model(),
            },
            Proc::SendSync { channel, messages, cont } => ProcV::SendSync {
                channel: channel.model(),
                messages: Seq::new(
                    messages@.len(),
                    |i: int|
                        if 0 <= i < messages@.len() {
                            messages@[i].model()
                        } else {
                            arbitrary()
                        },
                ),
                cont: cont.model(),
            },
            Proc::Eval { name } => ProcV::Eval { name: name.model() },
            Proc::Quote { proc } => ProcV::Quote { proc: Box::new(proc.model()) },
            Proc::Method { receiver, name, args } => ProcV::Method {
                receiver: receiver.model(),
                name: name.model(),
                args: Seq::new(
                    args@.len(),
                    |i: int|
                        if 0 <= i < args@.len() {
                            args@[i].model()
                        } else {
                            arbitrary()
                        },
                ),
            },
            Proc::UnaryExp { op, arg } => ProcV::UnaryExp { op: *op, arg: Box::new(arg.model()) },
            Proc::BinaryExp { op, left, right } => ProcV::BinaryExp {
                op: *op,
                left: left.model(),
                right: right.model(),
            },
            Proc::VarRef { kind, var } => ProcV::VarRef { kind: *kind, var: var.model() },
            Proc::Bad => ProcV::Bad,
        }
    }
}

impl<'ast> View for Proc<'ast> {
    type V = ProcV;

    open spec fn view(&self) -> ProcV {
        self.model()
    }
}

impl<'ast> View for AnnProc<'ast> {
    type V = AnnProcV;

    open spec fn view(&self) -> AnnProcV {
        self.model()
    }
}

impl<'ast> View for AnnName<'ast> {
    type V = AnnNameV;

    open spec fn view(&self) -> AnnNameV {
        self.model()
    }
}

impl<'ast> View for Names<'ast> {
    type V = NamesV;

    open spec fn view(&self) -> NamesV {
        self.model()
    }
}

impl<'ast> View for Var<'ast> {
    type V = VarV;

    open spec fn view(&self) -> VarV {
        self.model()
    }
}

/// The twins of a run of processes, one for one.
pub open spec fn procs_model(s: Seq<AnnProc>) -> Seq<AnnProcV> {
    s.map_values(|a: AnnProc| a.model())
}

/// The twins of a run of names, one for one.
pub open spec fn names_model(s: Seq<AnnName>) -> Seq<AnnNameV> {
    s.map_values(|a: AnnName| a.model())
}

/// The twins of a run of declarations, one for one.
pub open spec fn decls_model(s: Seq<NameDecl>) -> Seq<NameDeclV> {
    s.map_values(|d: NameDecl| d.model())
}

// ---------------------------------------------------------------------------
// Narrowing a process to a variable or a name
// ---------------------------------------------------------------------------

/// The variable that a process is, if it is one.
pub open spec fn var_of(p: ProcV) -> Option<VarV> {
    match p {
        ProcV::ProcVar(v) => Some(v),
        _ => None,
    }
}

/// The name that a process can stand for: a variable, or what it quotes.
pub open spec fn name_of(p: ProcV) -> Option<NameV> {
    match p {
        ProcV::ProcVar(v) => Some(NameV::ProcVar(v)),
        ProcV::Quote { proc } => Some(NameV::Quote(proc)),
        _ => None,
    }
}

/// The annotated name that an annotated process can stand for.
pub open spec fn ann_name_of(p: AnnProcV) -> Option<AnnNameV> {
    match name_of(*p.proc) {
        Some(name) => Some(AnnNameV { name, span: p.span }),
        None => None,
    }
}

/// The names that a run of processes stands for, if each of them is a name.
pub open spec fn ann_names_of(s: Seq<AnnProcV>) -> Option<Seq<AnnNameV>> {
    if forall|i: int| 0 <= i < s.len() ==> (#[trigger] ann_name_of(s[i])) is Some {
        Some(Seq::new(s.len(), |i: int| ann_name_of(s[i])->0))
    } else {
        None
    }
}

/// The name list that a run of processes stands for.
///
/// Without a remainder the run must be non-empty and made of names. With one,
/// the run must hold at least two processes: names, then a variable.
pub open spec fn names_of(s: Seq<AnnProcV>, with_remainder: bool) -> Option<NamesV> {
    if with_remainder {
        if s.len() < 2 {
            None
        } else {
            match (ann_names_of(s.drop_last()), var_of(*s.last().proc)) {
                (Some(names), Some(rem)) => Some(NamesV { names, remainder: Some(rem) }),
                _ => None,
            }
        }
    } else {
        if s.len() == 0 {
            None
        } else {
            match ann_names_of(s) {
                Some(names) => Some(NamesV { names, remainder: None }),
                None => None,
            }
        }
    }
}

/// A name list accounts for every process it was built from: its names and
/// its remainder together are as many as the run.
pub proof fn lemma_names_count(s: Seq<AnnProcV>, with_remainder: bool)
    ensures
        names_of(s, with_remainder) matches Some(names) ==> names.names.len() + (if with_remainder {
            1int
        } else {
            0int
        }) == s.len() && (names.remainder is Some <==> with_remainder),
{
}

impl<'ast> Var<'ast> {
    /// Narrows a process to the variable it is.
    pub fn try_from_proc(value: &Proc<'ast>) -> (r: Option<Var<'ast>>)
        ensures
            opt_var_model(r) == var_of(value@),
    {
        match value {
            Proc::ProcVar(var) => Some(*var),
            _ => None,
        }
    }

    /// Narrows an annotated process to the variable it is.
    pub fn try_from_ann_proc(value: AnnProc<'ast>) -> (r: Option<Var<'ast>>)
        ensures
            opt_var_model(r) == var_of(*value@.proc),
    {
        Var::try_from_proc(value.proc)
    }
}

impl<'ast> Name<'ast> {
    /// Narrows a process to the name it can stand for.
    pub fn try_from_proc(value: &Proc<'ast>) -> (r: Option<Name<'ast>>)
        ensures
            match r {
                Some(n) => name_of(value@) == Some(n.model()),
                None => name_of(value@) is None,
            },
    {
        match value {
            Proc::ProcVar(var) => Some(Name::ProcVar(*var)),
            Proc::Quote { proc } => Some(Name::Quote(*proc)),
            _ => None,
        }
    }
}

impl<'ast> AnnName<'ast> {
    /// Narrows an annotated process to the annotated name it can stand for.
    pub fn try_from_ann_proc(value: AnnProc<'ast>) -> (r: Option<AnnName<'ast>>)
        ensures
            match r {
                Some(n) => ann_name_of(value@) == Some(n@),
                None => ann_name_of(value@) is None,
            },
    {
        match Name::try_from_proc(value.proc) {
            Some(name) => Some(AnnName { name, span: value.span }),
            None => None,
        }
    }
}

/// Why a run of processes is no name list.
#[derive(Debug, Clone, Copy, PartialEq, Eq, Structural)]
pub enum NamesError {
    /// No process at all, where no remainder was asked for.
    Empty,
    /// No process at all, where a remainder was asked for.
    RemainderOfNone,
    /// A single process, where a remainder was asked for.
    RemainderOfOne,
    /// One of the processes is no name.
    NotAName,
    /// The last process is no variable, where a remainder was asked for.
    NotAVar,
}

/// Which error `Names::from_slice` reports on a run that is no name list.
pub open spec fn names_error(s: Seq<AnnProcV>, with_remainder: bool) -> NamesError {
    if with_remainder {
        if s.len() == 0 {
            NamesError::RemainderOfNone
        } else if s.len() == 1 {
            NamesError::RemainderOfOne
        } else if ann_names_of(s.drop_last()) is None {
            NamesError::NotAName
        } else {
            NamesError::NotAVar
        }
    } else {
        if s.len() == 0 {
            NamesError::Empty
        } else {
            NamesError::NotAName
        }
    }
}

impl NamesError {
    /// The error as a sentence.
    pub fn message(&self) -> (r: &'static str)
        ensures
            r@ == (match *self {
                NamesError::Empty => "attempt to build empty names"@,
                NamesError::RemainderOfNone => "attempt to build 'x, y ...@z' out of zero names"@,
                NamesError::RemainderOfOne => "attempt to build 'x, y ...@z' out of one name"@,
                NamesError::NotAName => "a process that is not a name"@,
                NamesError::NotAVar => "a remainder that is not a variable"@,
            }),
    {
        match self {
            NamesError::Empty => "attempt to build empty names",
            NamesError::RemainderOfNone => "attempt to build 'x, y ...@z' out of zero names",
            NamesError::RemainderOfOne => "attempt to build 'x, y ...@z' out of one name",
            NamesError::NotAName => "a process that is not a name",
            NamesError::NotAVar => "a remainder that is not a variable",
        }
    }
}

/// Narrows each process of `slice[from..to]` to a name.
fn to_names<'ast>(slice: &[AnnProc<'ast>], from: usize, to: usize) -> (r: Option<Vec<AnnName<'ast>>>)
    requires
        from <= to <= slice@.len(),
    ensures
        match r {
            Some(v) => ann_names_of(procs_model(slice@.subrange(from as int, to as int))) == Some(
                names_model(v@),
            ),
            None => ann_names_of(procs_model(slice@.subrange(from as int, to as int))) is None,
        },
{
    let ghost part = procs_model(slice@.subrange(from as int, to as int));
    let mut out: Vec<AnnName<'ast>> = Vec::new();
    let mut i: usize = from;
    while i < to
        invariant
            from <= i <= to <= slice@.len(),
            part == procs_model(slice@.subrange(from as int, to as int)),
            out@.len() == i - from,
            forall|k: int| 0 <= k < out@.len() ==> ann_name_of(part[k]) == Some(#[trigger] out@[k].model()),
        decreases to - i,
    {
        match AnnName::try_from_ann_proc(slice[i]) {
            Some(name) => {
                assert(part[i - from] == slice@[i as int].model());
                out.push(name);
            },
            None => {
                assert(part[i - from] == slice@[i as int].model());
                return None;
            },
        }
        i += 1;
    }
    proof {
        assert(part.len() == out@.len());
        assert forall|k: int| 0 <= k < part.len() implies (#[trigger] ann_name_of(part[k])) is Some by {
            assert(ann_name_of(part[k]) == Some(out@[k].model()));
        }
        let want = Seq::new(part.len(), |i: int| ann_name_of(part[i])->0);
        assert forall|k: int| 0 <= k < part.len() implies names_model(out@)[k] == want[k] by {
            assert(ann_name_of(part[k]) == Some(out@[k].model()));
        }
        assert(names_model(out@) =~= want);
    }
    Some(out)
}

impl<'ast> Names<'ast> {
    /// Builds a name list out of the processes that were read for it: all of
    /// them names, or, with a remainder, names followed by one variable.
    pub fn from_slice(slice: &[AnnProc<'ast>], with_remainder: bool) -> (r: Result<
        Names<'ast>,
        NamesError,
    >)
        ensures
            match r {
                Ok(names) => names_of(procs_model(slice@), with_remainder) == Some(names@),
                Err(e) => names_of(procs_model(slice@), with_remainder) is None && e == names_error(
                    procs_model(slice@),
                    with_remainder,
                ),
            },
    {
        let n = slice.len();
        let ghost all = procs_model(slice@);
        if with_remainder {
            if n == 0 {
                Err(NamesError::RemainderOfNone)
            } else if n == 1 {
                Err(NamesError::RemainderOfOne)
            } else {
                assert(all.drop_last() =~= procs_model(slice@.subrange(0, n - 1)));
                assert(all.last() == slice@[n - 1].model());
                match to_names(slice, 0, n - 1) {
                    None => Err(NamesError::NotAName),
                    Some(names) => match Var::try_from_ann_proc(slice[n - 1]) {
                        None => Err(NamesError::NotAVar),
                        Some(rem) => {
                            let r = Names { names, remainder: Some(rem) };
                            assert(r@.names =~= names_model(names@));
                            Ok(r)
                        },
                    },
                }
            }
        } else {
            if n == 0 {
                Err(NamesError::Empty)
            } else {
                assert(slice@.subrange(0, n as int) =~= slice@);
                match to_names(slice, 0, n) {
                    None => Err(NamesError::NotAName),
                    Some(names) => {
                        let r = Names { names, remainder: None };
                        assert(r@.names =~= names_model(names@));
                        Ok(r)
                    },
                }
            }
        }
    }
}

impl<'ast> Uri<'ast> {
    /// The URI that a literal in backticks denotes.
    pub fn from_literal(value: &'ast str) -> (r: Uri<'ast>)
        ensures
            r.0@ == crate::text::trimmed(value@, '`'),
    {
        Uri(crate::text::trim_matches(value, '`'))
    }

    /// The text of the URI.
    pub fn as_str(&self) -> (r: &'ast str)
        ensures
            r@ == self.0@,
    {
        self.0
    }
}

// ---------------------------------------------------------------------------
// As text
// ---------------------------------------------------------------------------

/// An identifier in single quotes.
pub open spec fn id_text(name: Seq<char>) -> Seq<char> {
    "'"@ + name + "'"@
}

/// A URI in backticks.
pub open spec fn uri_text(uri: Seq<char>) -> Seq<char> {
    "`"@ + uri + "`"@
}

/// A variable: its identifier in single quotes, or `_` for the wildcard.
pub open spec fn var_text(var: VarV) -> Seq<char> {
    match var {
        VarV::Wildcard => "_"@,
        VarV::Id(id) => id_text(id.name),
    }
}

/// The word for a simple type.
pub open spec fn simple_type_text(t: SimpleType) -> Seq<char> {
    match t {
        SimpleType::Bool => "Bool"@,
        SimpleType::Int => "Int"@,
        SimpleType::String => "String"@,
        SimpleType::Uri => "Uri"@,
        SimpleType::ByteArray => "ByteArray"@,
    }
}

/// A declaration: its identifier, then its URI in parentheses if it has one.
pub open spec fn name_decl_text(decl: NameDeclV) -> Seq<char> {
    id_text(decl.id.name) + (match decl.uri {
        Some(uri) => "("@ + uri_text(uri) + ")"@,
        None => Seq::empty(),
    })
}

impl<'ast> Id<'ast> {
    /// The identifier in single quotes.
    pub fn to_text(&self) -> (r: String)
        ensures
            r@ == id_text(self.name@),
    {
        let mut out = String::from_str("'");
        out.append(self.name);
        out.append("'");
        out
    }
}

impl<'ast> Var<'ast> {
    /// The variable as it is written in reports.
    pub fn to_text(&self) -> (r: String)
        ensures
            r@ == var_text(self@),
    {
        match self {
            Var::Wildcard => String::from_str("_"),
            Var::Id(id) => id.to_text(),
        }
    }
}

impl<'ast> Uri<'ast> {
    /// The URI in backticks.
    pub fn to_text(&self) -> (r: String)
        ensures
            r@ == uri_text(self.0@),
    {
        let mut out = String::from_str("`");
        out.append(self.0);
        out.append("`");
        out
    }
}

impl SimpleType {
    /// The word for the type.
    pub fn to_text(&self) -> (r: String)
        ensures
            r@ == simple_type_text(*self),
    {
        match self {
            SimpleType::Bool => String::from_str("Bool"),
            SimpleType::Int => String::from_str("Int"),
            SimpleType::String => String::from_str("String"),
            SimpleType::Uri => String::from_str("Uri"),
            SimpleType::ByteArray => String::from_str("ByteArray"),
        }
    }
}

impl<'ast> NameDecl<'ast> {
    /// The declaration as it is written in reports.
    pub fn to_text(&self) -> (r: String)
        ensures
            r@ == name_decl_text(self.model()),
    {
        let mut out = self.id.to_text();
        let ghost head = out@;
        match &self.uri {
            Some(uri) => {
                out.append("(");
                let inner = uri.to_text();
                out.append(inner.as_str());
                out.append(")");
                assert(out@ =~= head + ("("@ + uri_text(uri.0@) + ")"@));
            },
            None => {
                assert(out@ =~= head + Seq::<char>::empty());
            },
        }
        out
    }
}

} // verus!
