//! How the operands of a composite construct are put together.
//!
//! While the driver descends into a construct it leaves behind a `Rule`: what
//! to build once every operand has been evaluated, and from how many
//! operands. `combine` says what each rule builds; `build` builds it.
use vstd::prelude::*;
use vstd::slice::slice_subrange;
use crate::SourceSpan;
use crate::ast::{
    ann_name_of, names_of, procs_model, var_of, AnnName, AnnProc, AnnProcV, BinaryExpOp, Bind, BindV,
    BundleType, CollectionV, Id, IdV, LetBinding, LetBindingV, NameDecl, NameDeclV, Names, Proc,
    ProcV, Receipt, ReceiptV, SendType, Source, SourceV, SyncSendContV, UnaryExpOp, Var,
    decls_model,
};
use crate::parser::ast_builder::{
    bindings_model, cases_of, paired, receipts_model, ASTBuilder,
};

verus! {

// ---------------------------------------------------------------------------
// Descriptors of for-comprehensions and let declarations
// ---------------------------------------------------------------------------

/// The source of a linear bind, as far as the number of its operands goes.
#[derive(Debug, Clone, Copy, PartialEq, Eq, Structural)]
pub enum SourceDesc {
    Simple,
    RS,
    /// A send-receive source with `arity` inputs.
    SR { arity: usize },
}

impl SourceDesc {
    /// How many operands the source stands for: its channel and, for a
    /// send-receive source, its inputs.
    pub open spec fn arity_spec(&self) -> nat {
        match self {
            SourceDesc::Simple => 1,
            SourceDesc::RS => 1,
            SourceDesc::SR { arity } => (*arity + 1) as nat,
        }
    }

    /// How many operands the source stands for.
    pub fn arity(&self) -> (r: usize)
        requires
            self.arity_spec() <= usize::MAX,
        ensures
            r == self.arity_spec(),
    {
        match self {
            SourceDesc::Simple => 1,
            SourceDesc::RS => 1,
            SourceDesc::SR { arity } => *arity + 1,
        }
    }
}

/// One bind of a receipt, as far as the number of its operands goes.
#[derive(Debug, Clone, Copy, PartialEq, Eq, Structural)]
pub enum BindDesc {
    Linear { name_count: usize, cont_present: bool, source: SourceDesc },
    Repeated { name_count: usize, cont_present: bool },
    Peek { name_count: usize, cont_present: bool },
}

impl BindDesc {
    /// How many operands the bind stands for: those of its source, then its
    /// names.
    pub open spec fn arity_spec(&self) -> nat {
        match self {
            BindDesc::Linear { name_count, source, .. } => *name_count as nat + source.arity_spec(),
            BindDesc::Repeated { name_count, .. } => (*name_count + 1) as nat,
            BindDesc::Peek { name_count, .. } => (*name_count + 1) as nat,
        }
    }

    /// How many operands the bind stands for.
    pub fn arity(&self) -> (r: usize)
        requires
            self.arity_spec() <= usize::MAX,
        ensures
            r == self.arity_spec(),
    {
        match self {
            BindDesc::Linear { name_count, source, .. } => *name_count + source.arity(),
            BindDesc::Repeated { name_count, .. } => *name_count + 1,
            BindDesc::Peek { name_count, .. } => *name_count + 1,
        }
    }

    /// The bind that the operands `procs` make: the channel first, then the
    /// inputs of a send-receive source, then the names.
    pub open spec fn bind_of(&self, procs: Seq<AnnProcV>) -> Option<BindV> {
        if procs.len() != self.arity_spec() {
            None
        } else {
            match ann_name_of(procs[0]) {
                None => None,
                Some(channel) => match self {
                    BindDesc::Linear { cont_present, source, .. } => match names_of(
                        procs.skip(source.arity_spec() as int),
                        *cont_present,
                    ) {
                        None => None,
                        Some(lhs) => Some(
                            BindV::Linear {
                                lhs,
                                rhs: match source {
                                    SourceDesc::Simple => SourceV::Simple { name: channel },
                                    SourceDesc::RS => SourceV::ReceiveSend { name: channel },
                                    SourceDesc::SR { arity } => SourceV::SendReceive {
                                        name: channel,
                                        inputs: procs.subrange(1, *arity + 1),
                                    },
                                },
                            },
                        ),
                    },
                    BindDesc::Repeated { cont_present, .. } => match names_of(
                        procs.skip(1),
                        *cont_present,
                    ) {
                        None => None,
                        Some(lhs) => Some(BindV::Repeated { lhs, rhs: channel }),
                    },
                    BindDesc::Peek { cont_present, .. } => match names_of(
                        procs.skip(1),
                        *cont_present,
                    ) {
                        None => None,
                        Some(lhs) => Some(BindV::Peek { lhs, rhs: channel }),
                    },
                },
            }
        }
    }

    /// Builds the bind out of its operands.
    pub fn to_bind<'ast>(&self, procs: &[AnnProc<'ast>]) -> (r: Option<Bind<'ast>>)
        requires
            procs@.len() == self.arity_spec(),
        ensures
            match r {
                Some(b) => self.bind_of(procs_model(procs@)) == Some(b.model()),
                None => self.bind_of(procs_model(procs@)) is None,
            },
    {
        let ghost all = procs_model(procs@);
        let n = procs.len();
        let channel = match AnnName::try_from_ann_proc(procs[0]) {
            Some(c) => c,
            None => {
                return None;
            },
        };
        match self {
            BindDesc::Linear { cont_present, source, .. } => {
                let skip = source.arity();
                proof {
                    lemma_model_subrange(procs@, skip as int, n as int);
                }
                let lhs = match Names::from_slice(slice_subrange(procs, skip, n), *cont_present) {
                    Ok(names) => names,
                    Err(_) => {
                        return None;
                    },
                };
                let rhs = match source {
                    SourceDesc::Simple => Source::Simple { name: channel },
                    SourceDesc::RS => Source::ReceiveSend { name: channel },
                    SourceDesc::SR { arity } => {
                        let inputs = vstd::slice::slice_to_vec(slice_subrange(procs, 1, *arity + 1));
                        let s = Source::SendReceive { name: channel, inputs };
                        proof {
                            lemma_model_subrange(procs@, 1, *arity + 1);
                            assert(match s.model() {
                                SourceV::SendReceive { name, inputs: i } => i =~= all.subrange(
                                    1,
                                    *arity + 1,
                                ) && name == channel@,
                                _ => false,
                            });
                        }
                        s
                    },
                };
                Some(Bind::Linear { lhs, rhs })
            },
            BindDesc::Repeated { cont_present, .. } => {
                proof {
                    lemma_model_subrange(procs@, 1, n as int);
                }
                match Names::from_slice(slice_subrange(procs, 1, n), *cont_present) {
                    Ok(lhs) => Some(Bind::Repeated { lhs, rhs: channel }),
                    Err(_) => None,
                }
            },
            BindDesc::Peek { cont_present, .. } => {
                proof {
                    lemma_model_subrange(procs@, 1, n as int);
                }
                match Names::from_slice(slice_subrange(procs, 1, n), *cont_present) {
                    Ok(lhs) => Some(Bind::Peek { lhs, rhs: channel }),
                    Err(_) => None,
                }
            },
        }
    }
}

/// The twins of a stretch of processes are the stretch of the twins.
pub proof fn lemma_model_subrange(s: Seq<AnnProc>, from: int, to: int)
    requires
        0 <= from <= to <= s.len(),
    ensures
        procs_model(s.subrange(from, to)) == procs_model(s).subrange(from, to),
        procs_model(s).len() == s.len(),
        to == s.len() ==> procs_model(s.subrange(from, to)) == procs_model(s).skip(from),
        from == 0 ==> procs_model(s.subrange(from, to)) == procs_model(s).take(to),
{
    assert(procs_model(s.subrange(from, to)) =~= procs_model(s).subrange(from, to));
    assert(procs_model(s).skip(from) =~= procs_model(s).subrange(from, s.len() as int));
    assert(procs_model(s).take(to) =~= procs_model(s).subrange(0, to));
}

/// The binds of one receipt.
#[derive(Debug, Clone)]
pub struct ReceiptDesc {
    pub parts: Vec<BindDesc>,
}

/// One declaration of a `let`: how many names stand on the left, whether the
/// last of them is a remainder, and how many values stand on the right.
#[derive(Debug, Clone, Copy, PartialEq, Eq, Structural)]
pub struct LetDecl {
    pub lhs_arity: usize,
    pub lhs_has_cont: bool,
    pub rhs_arity: usize,
}

/// How many operands the binds `parts[from..]` stand for.
pub open spec fn binds_len(parts: Seq<BindDesc>, from: int) -> nat
    decreases parts.len() - from,
{
    if from < 0 || from >= parts.len() {
        0
    } else {
        parts[from].arity_spec() + binds_len(parts, from + 1)
    }
}

/// How many operands the receipts `desc[from..]` stand for.
pub open spec fn receipts_len(desc: Seq<Seq<BindDesc>>, from: int) -> nat
    decreases desc.len() - from,
{
    if from < 0 || from >= desc.len() {
        0
    } else {
        binds_len(desc[from], 0) + receipts_len(desc, from + 1)
    }
}

/// How many operands the declarations `decls[from..]` stand for.
pub open spec fn decls_len(decls: Seq<LetDecl>, from: int) -> nat
    decreases decls.len() - from,
{
    if from < 0 || from >= decls.len() {
        0
    } else {
        (decls[from].lhs_arity + decls[from].rhs_arity) as nat + decls_len(decls, from + 1)
    }
}

/// The binds that `parts[from..]` make of the operands `procs[at..]`, each
/// bind taking as many operands as it stands for.
pub open spec fn binds_of(parts: Seq<BindDesc>, from: int, procs: Seq<AnnProcV>, at: int) -> Option<
    Seq<BindV>,
>
    decreases parts.len() - from,
{
    if from < 0 || from >= parts.len() {
        Some(Seq::empty())
    } else {
        let n = parts[from].arity_spec() as int;
        if at < 0 || at + n > procs.len() {
            None
        } else {
            match (
                parts[from].bind_of(procs.subrange(at, at + n)),
                binds_of(parts, from + 1, procs, at + n),
            ) {
                (Some(first), Some(rest)) => Some(seq![first] + rest),
                _ => None,
            }
        }
    }
}

/// The receipts that `desc[from..]` make of the operands `procs[at..]`.
pub open spec fn receipts_of(
    desc: Seq<Seq<BindDesc>>,
    from: int,
    procs: Seq<AnnProcV>,
    at: int,
) -> Option<Seq<ReceiptV>>
    decreases desc.len() - from,
{
    if from < 0 || from >= desc.len() {
        Some(Seq::empty())
    } else {
        let n = binds_len(desc[from], 0) as int;
        if at < 0 || at + n > procs.len() {
            None
        } else {
            match (
                binds_of(desc[from], 0, procs.subrange(at, at + n), 0),
                receipts_of(desc, from + 1, procs, at + n),
            ) {
                (Some(binds), Some(rest)) => Some(seq![ReceiptV { binds }] + rest),
                _ => None,
            }
        }
    }
}

/// The single bindings that pair `lhs[from..]` with `rhs[from..]`, as far as
/// both reach.
pub open spec fn zipped(lhs: Seq<AnnProcV>, rhs: Seq<AnnProcV>, from: int) -> Option<
    Seq<LetBindingV>,
>
    decreases lhs.len() - from,
{
    if from < 0 || from >= lhs.len() || from >= rhs.len() {
        Some(Seq::empty())
    } else {
        match (ann_name_of(lhs[from]), zipped(lhs, rhs, from + 1)) {
            (Some(name), Some(rest)) => Some(
                seq![LetBindingV::Single { lhs: name, rhs: rhs[from] }] + rest,
            ),
            _ => None,
        }
    }
}

/// The bindings of one declaration. Names and values are paired one to one.
/// Where the left side ends in a remainder and the right side is longer, the
/// remainder takes every value from its own place on.
pub open spec fn decl_bindings(decl: LetDecl, procs: Seq<AnnProcV>) -> Option<Seq<LetBindingV>> {
    let lhs = procs.take(decl.lhs_arity as int);
    let rhs = procs.skip(decl.lhs_arity as int);
    if procs.len() == 0 || procs.len() != decl.lhs_arity + decl.rhs_arity {
        None
    } else if decl.lhs_has_cont && rhs.len() > lhs.len() {
        if lhs.len() == 0 {
            None
        } else {
            match (var_of(*lhs.last().proc), zipped(lhs.drop_last(), rhs, 0)) {
                (Some(rem), Some(singles)) => Some(
                    singles.push(
                        LetBindingV::Multiple { lhs: rem, rhs: rhs.skip(lhs.len() - 1) },
                    ),
                ),
                _ => None,
            }
        }
    } else {
        zipped(lhs, rhs, 0)
    }
}

/// The bindings that `decls[from..]` make of the operands `procs[at..]`.
pub open spec fn let_bindings(decls: Seq<LetDecl>, from: int, procs: Seq<AnnProcV>, at: int) -> Option<
    Seq<LetBindingV>,
>
    decreases decls.len() - from,
{
    if from < 0 || from >= decls.len() {
        Some(Seq::empty())
    } else {
        let n = decls[from].lhs_arity + decls[from].rhs_arity;
        if at < 0 || at + n > procs.len() {
            None
        } else {
            match (
                decl_bindings(decls[from], procs.subrange(at, at + n)),
                let_bindings(decls, from + 1, procs, at + n),
            ) {
                (Some(first), Some(rest)) => Some(first + rest),
                _ => None,
            }
        }
    }
}

// ---------------------------------------------------------------------------
// Rules
// ---------------------------------------------------------------------------

/// What to build out of the operands of a composite construct.
#[derive(Debug, Clone)]
pub enum Rule<'ast> {
    BinaryExp { op: BinaryExpOp, span: SourceSpan },
    Bundle { span: SourceSpan, typ: BundleType },
    Contract { arity: usize, has_cont: bool, span: SourceSpan },
    Eval { span: SourceSpan },
    ForComprehension { desc: Vec<ReceiptDesc>, span: SourceSpan },
    IfThen { span: SourceSpan },
    IfThenElse { span: SourceSpan },
    Let { span: SourceSpan, concurrent: bool, let_decls: Vec<LetDecl> },
    List { arity: usize, has_remainder: bool, span: SourceSpan },
    MapOf { arity: usize, has_remainder: bool, span: SourceSpan },
    Match { span: SourceSpan, arity: usize },
    Method { span: SourceSpan, id: Id<'ast>, arity: usize },
    New { decls: Vec<NameDecl<'ast>>, span: SourceSpan },
    Par { span: SourceSpan },
    Quote { span: SourceSpan },
    Send { send_type: SendType, arity: usize, span: SourceSpan },
    SendSync { span: SourceSpan, arity: usize },
    SendSyncWithCont { span: SourceSpan, arity: usize },
    SetOf { arity: usize, has_remainder: bool, span: SourceSpan },
    Tuple { arity: usize, span: SourceSpan },
    UnaryExp { op: UnaryExpOp, span: SourceSpan },
}

pub ghost enum RuleV {
    BinaryExp { op: BinaryExpOp, span: SourceSpan },
    Bundle { span: SourceSpan, typ: BundleType },
    Contract { arity: nat, has_cont: bool, span: SourceSpan },
    Eval { span: SourceSpan },
    ForComprehension { desc: Seq<Seq<BindDesc>>, span: SourceSpan },
    IfThen { span: SourceSpan },
    IfThenElse { span: SourceSpan },
    Let { span: SourceSpan, concurrent: bool, let_decls: Seq<LetDecl> },
    List { arity: nat, has_remainder: bool, span: SourceSpan },
    MapOf { arity: nat, has_remainder: bool, span: SourceSpan },
    Match { span: SourceSpan, arity: nat },
    Method { span: SourceSpan, id: IdV, arity: nat },
    New { decls: Seq<NameDeclV>, span: SourceSpan },
    Par { span: SourceSpan },
    Quote { span: SourceSpan },
    Send { send_type: SendType, arity: nat, span: SourceSpan },
    SendSync { span: SourceSpan, arity: nat },
    SendSyncWithCont { span: SourceSpan, arity: nat },
    SetOf { arity: nat, has_remainder: bool, span: SourceSpan },
    Tuple { arity: nat, span: SourceSpan },
    UnaryExp { op: UnaryExpOp, span: SourceSpan },
}

/// The binds of each receipt of a run of receipts.
pub open spec fn desc_model(desc: Seq<ReceiptDesc>) -> Seq<Seq<BindDesc>> {
    desc.map_values(|r: ReceiptDesc| r.parts@)
}

impl<'ast> Rule<'ast> {
    pub open spec fn model(&self) -> RuleV {
        match self {
            Rule::BinaryExp { op, span } => RuleV::BinaryExp { op: *op, span: *span },
            Rule::Bundle { span, typ } => RuleV::Bundle { span: *span, typ: *typ },
            Rule::Contract { arity, has_cont, span } => RuleV::Contract {
                arity: *arity as nat,
                has_cont: *has_cont,
                span: *span,
            },
            Rule::Eval { span } => RuleV::Eval { span: *span },
            Rule::ForComprehension { desc, span } => RuleV::ForComprehension {
                desc: desc_model(desc@),
                span: *span,
            },
            Rule::IfThen { span } => RuleV::IfThen { span: *span },
            Rule::IfThenElse { span } => RuleV::IfThenElse { span: *span },
            Rule::Let { span, concurrent, let_decls } => RuleV::Let {
                span: *span,
                concurrent: *concurrent,
                let_decls: let_decls@,
            },
            Rule::List { arity, has_remainder, span } => RuleV::List {
                arity: *arity as nat,
                has_remainder: *has_remainder,
                span: *span,
            },
            Rule::MapOf { arity, has_remainder, span } => RuleV::MapOf {
                arity: *arity as nat,
                has_remainder: *has_remainder,
                span: *span,
            },
            Rule::Match { span, arity } => RuleV::Match { span: *span, arity: *arity as nat },
            Rule::Method { span, id, arity } => RuleV::Method {
                span: *span,
                id: id.model(),
                arity: *arity as nat,
            },
            Rule::New { decls, span } => RuleV::New { decls: decls_model(decls@), span: *span },
            Rule::Par { span } => RuleV::Par { span: *span },
            Rule::Quote { span } => RuleV::Quote { span: *span },
            Rule::Send { send_type, arity, span } => RuleV::Send {
                send_type: *send_type,
                arity: *arity as nat,
                span: *span,
            },
            Rule::SendSync { span, arity } => RuleV::SendSync { span: *span, arity: *arity as nat },
            Rule::SendSyncWithCont { span, arity } => RuleV::SendSyncWithCont {
                span: *span,
                arity: *arity as nat,
            },
            Rule::SetOf { arity, has_remainder, span } => RuleV::SetOf {
                arity: *arity as nat,
                has_remainder: *has_remainder,
                span: *span,
            },
            Rule::Tuple { arity, span } => RuleV::Tuple { arity: *arity as nat, span: *span },
            Rule::UnaryExp { op, span } => RuleV::UnaryExp { op: *op, span: *span },
        }
    }
}

impl<'ast> View for Rule<'ast> {
    type V = RuleV;

    open spec fn view(&self) -> RuleV {
        self.model()
    }
}

impl RuleV {
    /// The span of the construct that the rule builds.
    pub open spec fn span(self) -> SourceSpan {
        match self {
            RuleV::BinaryExp { span, .. } => span,
            RuleV::Bundle { span, .. } => span,
            RuleV::Contract { span, .. } => span,
            RuleV::Eval { span } => span,
            RuleV::ForComprehension { span, .. } => span,
            RuleV::IfThen { span } => span,
            RuleV::IfThenElse { span } => span,
            RuleV::Let { span, .. } => span,
            RuleV::List { span, .. } => span,
            RuleV::MapOf { span, .. } => span,
            RuleV::Match { span, .. } => span,
            RuleV::Method { span, .. } => span,
            RuleV::New { span, .. } => span,
            RuleV::Par { span } => span,
            RuleV::Quote { span } => span,
            RuleV::Send { span, .. } => span,
            RuleV::SendSync { span, .. } => span,
            RuleV::SendSyncWithCont { span, .. } => span,
            RuleV::SetOf { span, .. } => span,
            RuleV::Tuple { span, .. } => span,
            RuleV::UnaryExp { span, .. } => span,
        }
    }

    /// How many operands the rule takes.
    pub open spec fn arity(self) -> nat {
        match self {
            RuleV::BinaryExp { .. } => 2,
            RuleV::Bundle { .. } => 1,
            RuleV::Contract { arity, .. } => arity + 2,
            RuleV::Eval { .. } => 1,
            RuleV::ForComprehension { desc, .. } => 1 + receipts_len(desc, 0),
            RuleV::IfThen { .. } => 2,
            RuleV::IfThenElse { .. } => 3,
            RuleV::Let { let_decls, .. } => 1 + decls_len(let_decls, 0),
            RuleV::List { arity, .. } => arity,
            RuleV::MapOf { arity, has_remainder, .. } => 2 * arity + if has_remainder {
                1nat
            } else {
                0nat
            },
            RuleV::Match { arity, .. } => 2 * arity + 1,
            RuleV::Method { arity, .. } => arity + 1,
            RuleV::New { .. } => 1,
            RuleV::Par { .. } => 2,
            RuleV::Quote { .. } => 1,
            RuleV::Send { arity, .. } => arity + 1,
            RuleV::SendSync { arity, .. } => arity + 1,
            RuleV::SendSyncWithCont { arity, .. } => arity + 2,
            RuleV::SetOf { arity, .. } => arity,
            RuleV::Tuple { arity, .. } => arity,
            RuleV::UnaryExp { .. } => 1,
        }
    }
}

/// A collection of `ops`, the last of which is the remainder if there is one.
pub open spec fn with_tail_remainder(ops: Seq<AnnProcV>, has_remainder: bool) -> Option<
    (Seq<AnnProcV>, Option<crate::ast::VarV>),
> {
    if has_remainder {
        if ops.len() == 0 {
            None
        } else {
            match var_of(*ops.last().proc) {
                Some(v) => Some((ops.drop_last(), Some(v))),
                None => None,
            }
        }
    } else {
        Some((ops, None))
    }
}

/// What `rule` builds out of the operands `ops`, which are as many as the
/// rule takes; `None` where an operand is not of the shape that the rule
/// needs (a name, a variable, a list of names).
pub open spec fn combine(rule: RuleV, ops: Seq<AnnProcV>) -> Option<ProcV> {
    match rule {
        RuleV::BinaryExp { op, .. } => Some(ProcV::BinaryExp { op, left: ops[0], right: ops[1] }),
        RuleV::Bundle { typ, .. } => Some(ProcV::Bundle { bundle_type: typ, proc: ops[0] }),
        RuleV::Contract { has_cont, .. } => match (
            ann_name_of(ops[0]),
            names_of(ops.skip(2), has_cont),
        ) {
            (Some(name), Some(formals)) => Some(ProcV::Contract { name, formals, body: ops[1] }),
            _ => None,
        },
        RuleV::Eval { .. } => match ann_name_of(ops[0]) {
            Some(name) => Some(ProcV::Eval { name }),
            None => None,
        },
        RuleV::ForComprehension { desc, .. } => match receipts_of(desc, 0, ops.skip(1), 0) {
            Some(receipts) => Some(ProcV::ForComprehension { receipts, proc: ops[0] }),
            None => None,
        },
        RuleV::IfThen { .. } => Some(
            ProcV::IfThenElse { condition: ops[0], if_true: ops[1], if_false: None },
        ),
        RuleV::IfThenElse { .. } => Some(
            ProcV::IfThenElse { condition: ops[0], if_true: ops[1], if_false: Some(ops[2]) },
        ),
        RuleV::Let { concurrent, let_decls, .. } => match let_bindings(let_decls, 0, ops.skip(1), 0) {
            Some(bindings) => Some(ProcV::Let { bindings, body: ops[0], concurrent }),
            None => None,
        },
        RuleV::List { has_remainder, .. } => match with_tail_remainder(ops, has_remainder) {
            Some((elements, remainder)) => Some(
                ProcV::Collection(CollectionV::List { elements, remainder }),
            ),
            None => None,
        },
        RuleV::MapOf { has_remainder, .. } => if has_remainder {
            match var_of(*ops[0].proc) {
                Some(v) => Some(
                    ProcV::Collection(
                        CollectionV::MapOf { elements: paired(ops.skip(1)), remainder: Some(v) },
                    ),
                ),
                None => None,
            }
        } else {
            Some(ProcV::Collection(CollectionV::MapOf { elements: paired(ops), remainder: None }))
        },
        RuleV::Match { .. } => Some(
            ProcV::Match { expression: ops[0], cases: cases_of(ops.skip(1)) },
        ),
        RuleV::Method { id, .. } => Some(
            ProcV::Method { receiver: ops[0], name: id, args: ops.skip(1) },
        ),
        RuleV::New { decls, .. } => Some(ProcV::New { decls, proc: ops[0] }),
        RuleV::Par { .. } => Some(ProcV::Par { left: ops[0], right: ops[1] }),
        RuleV::Quote { .. } => Some(ProcV::Quote { proc: ops[0].proc }),
        RuleV::Send { send_type, .. } => match ann_name_of(ops[0]) {
            Some(channel) => Some(ProcV::Send { channel, send_type, inputs: ops.skip(1) }),
            None => None,
        },
        RuleV::SendSync { .. } => match ann_name_of(ops[0]) {
            Some(channel) => Some(
                ProcV::SendSync { channel, messages: ops.skip(1), cont: SyncSendContV::Empty },
            ),
            None => None,
        },
        RuleV::SendSyncWithCont { .. } => match ann_name_of(ops[0]) {
            Some(channel) => Some(
                ProcV::SendSync {
                    channel,
                    messages: ops.subrange(1, ops.len() - 1),
                    cont: SyncSendContV::NonEmpty(ops.last()),
                },
            ),
            None => None,
        },
        RuleV::SetOf { has_remainder, .. } => match with_tail_remainder(ops, has_remainder) {
            Some((elements, remainder)) => Some(
                ProcV::Collection(CollectionV::SetOf { elements, remainder }),
            ),
            None => None,
        },
        RuleV::Tuple { .. } => Some(ProcV::Collection(CollectionV::Tuple(ops))),
        RuleV::UnaryExp { op, .. } => Some(ProcV::UnaryExp { op, arg: ops[0].proc }),
    }
}

/// The annotated process that `rule` leaves on the operand stack: what it
/// builds, or the placeholder where it cannot build anything, at the span of
/// the construct.
pub open spec fn built(rule: RuleV, ops: Seq<AnnProcV>) -> AnnProcV {
    AnnProcV {
        proc: Box::new(
            match combine(rule, ops) {
                Some(p) => p,
                None => ProcV::Bad,
            },
        ),
        span: rule.span(),
    }
}

// ---------------------------------------------------------------------------
// Building
// ---------------------------------------------------------------------------

/// `done` followed by `rest`, where there is a rest.
pub open spec fn prepend<T>(done: Seq<T>, rest: Option<Seq<T>>) -> Option<Seq<T>> {
    match rest {
        Some(r) => Some(done + r),
        None => None,
    }
}

/// The twins of a run of binds.
pub open spec fn binds_model(s: Seq<Bind>) -> Seq<BindV> {
    s.map_values(|b: Bind| b.model())
}

/// Adds up the operands of the binds of one receipt.
pub fn binds_total(parts: &Vec<BindDesc>) -> (r: usize)
    requires
        binds_len(parts@, 0) <= usize::MAX,
    ensures
        r == binds_len(parts@, 0),
{
    let mut acc: usize = 0;
    let mut i: usize = 0;
    while i < parts.len()
        invariant
            i <= parts@.len(),
            acc + binds_len(parts@, i as int) == binds_len(parts@, 0),
            binds_len(parts@, 0) <= usize::MAX,
        decreases parts@.len() - i,
    {
        acc = acc + parts[i].arity();
        i += 1;
    }
    acc
}

/// Adds up the operands of the receipts of a for-comprehension.
pub fn receipts_total(desc: &Vec<ReceiptDesc>) -> (r: usize)
    requires
        receipts_len(desc_model(desc@), 0) <= usize::MAX,
    ensures
        r == receipts_len(desc_model(desc@), 0),
{
    let ghost d = desc_model(desc@);
    let mut acc: usize = 0;
    let mut i: usize = 0;
    while i < desc.len()
        invariant
            i <= desc@.len(),
            d == desc_model(desc@),
            acc + receipts_len(d, i as int) == receipts_len(d, 0),
            receipts_len(d, 0) <= usize::MAX,
        decreases desc@.len() - i,
    {
        assert(d[i as int] == desc@[i as int].parts@);
        acc = acc + binds_total(&desc[i].parts);
        i += 1;
    }
    acc
}

/// Adds up the operands of the declarations of a `let`.
pub fn decls_total(decls: &Vec<LetDecl>) -> (r: usize)
    requires
        decls_len(decls@, 0) <= usize::MAX,
    ensures
        r == decls_len(decls@, 0),
{
    let mut acc: usize = 0;
    let mut i: usize = 0;
    while i < decls.len()
        invariant
            i <= decls@.len(),
            acc + decls_len(decls@, i as int) == decls_len(decls@, 0),
            decls_len(decls@, 0) <= usize::MAX,
        decreases decls@.len() - i,
    {
        acc = acc + (decls[i].lhs_arity + decls[i].rhs_arity);
        i += 1;
    }
    acc
}

/// Builds the binds of one receipt out of its operands.
pub fn binds_from<'ast>(parts: &Vec<BindDesc>, procs: &[AnnProc<'ast>]) -> (r: Option<Vec<Bind<'ast>>>)
    requires
        procs@.len() == binds_len(parts@, 0),
    ensures
        match r {
            Some(v) => binds_of(parts@, 0, procs_model(procs@), 0) == Some(binds_model(v@)),
            None => binds_of(parts@, 0, procs_model(procs@), 0) is None,
        },
{
    let ghost all = procs_model(procs@);
    proof {
        assert(procs@.len() == procs.len());
    }
    let mut out: Vec<Bind<'ast>> = Vec::new();
    let mut i: usize = 0;
    let mut at: usize = 0;
    proof {
        assert(binds_model(out@) + binds_of(parts@, 0, all, 0)->0 =~= binds_of(parts@, 0, all, 0)->0);
    }
    while i < parts.len()
        invariant
            i <= parts@.len(),
            all == procs_model(procs@),
            all.len() == procs@.len(),
            procs@.len() <= usize::MAX,
            at + binds_len(parts@, i as int) == procs@.len(),
            binds_of(parts@, 0, all, 0) == prepend(
                binds_model(out@),
                binds_of(parts@, i as int, all, at as int),
            ),
        decreases parts@.len() - i,
    {
        let n = parts[i].arity();
        proof {
            lemma_model_subrange(procs@, at as int, at + n);
        }
        match parts[i].to_bind(slice_subrange(procs, at, at + n)) {
            None => {
                return None;
            },
            Some(b) => {
                proof {
                    let rest = binds_of(parts@, i + 1, all, at + n);
                    if rest is Some {
                        assert(binds_model(out@) + (seq![b.model()] + rest->0) =~= binds_model(
                            out@.push(b),
                        ) + rest->0);
                    }
                }
                out.push(b);
            },
        }
        at = at + n;
        i += 1;
    }
    proof {
        assert(binds_model(out@) + Seq::<BindV>::empty() =~= binds_model(out@));
    }
    Some(out)
}

/// Builds the receipts of a for-comprehension out of their operands.
pub fn receipts_from<'ast>(desc: &Vec<ReceiptDesc>, procs: &[AnnProc<'ast>]) -> (r: Option<
    Vec<Receipt<'ast>>,
>)
    requires
        procs@.len() == receipts_len(desc_model(desc@), 0),
    ensures
        match r {
            Some(v) => receipts_of(desc_model(desc@), 0, procs_model(procs@), 0) == Some(
                receipts_model(v@),
            ),
            None => receipts_of(desc_model(desc@), 0, procs_model(procs@), 0) is None,
        },
{
    let ghost all = procs_model(procs@);
    let ghost d = desc_model(desc@);
    proof {
        assert(procs@.len() == procs.len());
    }
    let mut out: Vec<Receipt<'ast>> = Vec::new();
    let mut i: usize = 0;
    let mut at: usize = 0;
    proof {
        assert(receipts_model(out@) + receipts_of(d, 0, all, 0)->0 =~= receipts_of(d, 0, all, 0)->0);
    }
    while i < desc.len()
        invariant
            i <= desc@.len(),
            all == procs_model(procs@),
            all.len() == procs@.len(),
            d == desc_model(desc@),
            procs@.len() <= usize::MAX,
            at + receipts_len(d, i as int) == procs@.len(),
            receipts_of(d, 0, all, 0) == prepend(
                receipts_model(out@),
                receipts_of(d, i as int, all, at as int),
            ),
        decreases desc@.len() - i,
    {
        assert(d[i as int] == desc@[i as int].parts@);
        let n = binds_total(&desc[i].parts);
        proof {
            lemma_model_subrange(procs@, at as int, at + n);
        }
        match binds_from(&desc[i].parts, slice_subrange(procs, at, at + n)) {
            None => {
                return None;
            },
            Some(binds) => {
                let receipt = Receipt { binds };
                proof {
                    assert(receipt.model().binds =~= binds_model(binds@));
                    let rest = receipts_of(d, i + 1, all, at + n);
                    if rest is Some {
                        assert(receipts_model(out@) + (seq![receipt.model()] + rest->0)
                            =~= receipts_model(out@.push(receipt)) + rest->0);
                    }
                }
                out.push(receipt);
            },
        }
        at = at + n;
        i += 1;
    }
    proof {
        assert(receipts_model(out@) + Seq::<ReceiptV>::empty() =~= receipts_model(out@));
    }
    Some(out)
}

/// Appends to `out` the single bindings that pair `lhs` with `rhs`, as far as
/// both reach. Gives `false`, with `out` in no particular state, where a left
/// side is no name.
fn push_zipped<'ast>(
    lhs: &[AnnProc<'ast>],
    rhs: &[AnnProc<'ast>],
    out: &mut Vec<LetBinding<'ast>>,
) -> (ok: bool)
    ensures
        ok <==> zipped(procs_model(lhs@), procs_model(rhs@), 0) is Some,
        ok ==> bindings_model(final(out)@) == bindings_model(old(out)@) + zipped(
            procs_model(lhs@),
            procs_model(rhs@),
            0,
        )->0,
{
    let ghost l = procs_model(lhs@);
    let ghost r = procs_model(rhs@);
    let ghost before = bindings_model(out@);
    let ghost mut done: Seq<LetBindingV> = Seq::empty();
    let mut k: usize = 0;
    proof {
        assert(before + done =~= before);
        assert(done + zipped(l, r, 0)->0 =~= zipped(l, r, 0)->0);
    }
    while k < lhs.len() && k < rhs.len()
        invariant
            l == procs_model(lhs@),
            r == procs_model(rhs@),
            l.len() == lhs@.len(),
            r.len() == rhs@.len(),
            bindings_model(out@) == before + done,
            zipped(l, r, 0) == prepend(done, zipped(l, r, k as int)),
        decreases lhs@.len() - k,
    {
        match AnnName::try_from_ann_proc(lhs[k]) {
            None => {
                return false;
            },
            Some(name) => {
                let b = LetBinding::Single { lhs: name, rhs: rhs[k] };
                proof {
                    let rest = zipped(l, r, k + 1);
                    if rest is Some {
                        assert(done + (seq![b.model()] + rest->0) =~= done.push(b.model())
                            + rest->0);
                    }
                    assert(bindings_model(out@.push(b)) =~= bindings_model(out@).push(b.model()));
                    assert(bindings_model(out@).push(b.model()) =~= before + done.push(b.model()));
                    done = done.push(b.model());
                }
                out.push(b);
            },
        }
        k += 1;
    }
    proof {
        assert(done + Seq::<LetBindingV>::empty() =~= done);
    }
    true
}

/// Appends to `out` the bindings of one declaration. Gives `false`, with
/// `out` in no particular state, where the operands do not fit it.
#[verifier::rlimit(40)]
fn push_decl_bindings<'ast>(
    decl: &LetDecl,
    procs: &[AnnProc<'ast>],
    out: &mut Vec<LetBinding<'ast>>,
) -> (ok: bool)
    requires
        procs@.len() == decl.lhs_arity + decl.rhs_arity,
    ensures
        ok <==> decl_bindings(*decl, procs_model(procs@)) is Some,
        ok ==> bindings_model(final(out)@) == bindings_model(old(out)@) + decl_bindings(
            *decl,
            procs_model(procs@),
        )->0,
{
    let ghost all = procs_model(procs@);
    let ghost before = bindings_model(out@);
    let n = procs.len();
    let l = decl.lhs_arity;
    if n == 0 {
        return false;
    }
    proof {
        lemma_model_subrange(procs@, 0, l as int);
        lemma_model_subrange(procs@, l as int, n as int);
    }
    let lhs = slice_subrange(procs, 0, l);
    let rhs = slice_subrange(procs, l, n);
    if decl.lhs_has_cont && n - l > l {
        if l == 0 {
            return false;
        }
        let rem = match Var::try_from_ann_proc(lhs[l - 1]) {
            Some(v) => v,
            None => {
                return false;
            },
        };
        proof {
            lemma_model_subrange(lhs@, 0, l - 1);
            assert(procs_model(lhs@).drop_last() =~= procs_model(lhs@).take(l - 1));
            assert(procs_model(lhs@).last() == lhs@[l - 1].model());
        }
        if !push_zipped(slice_subrange(lhs, 0, l - 1), rhs, out) {
            return false;
        }
        let tail = vstd::slice::slice_to_vec(slice_subrange(rhs, l - 1, n - l));
        let b = LetBinding::Multiple { lhs: rem, rhs: tail };
        proof {
            lemma_model_subrange(rhs@, l - 1, n - l);
            let singles = zipped(procs_model(lhs@).drop_last(), procs_model(rhs@), 0)->0;
            assert(match b.model() {
                LetBindingV::Multiple { lhs: v, rhs: t } => v == rem@ && t =~= procs_model(
                    rhs@,
                ).skip(l - 1),
                _ => false,
            });
            assert(bindings_model(out@) == before + singles);
            assert(bindings_model(out@.push(b)) =~= bindings_model(out@).push(b.model()));
            assert(bindings_model(out@).push(b.model()) =~= before + singles.push(b.model()));
        }
        out.push(b);
        true
    } else {
        push_zipped(lhs, rhs, out)
    }
}

/// Builds the bindings of a `let` out of the operands of its declarations.
pub fn let_bindings_from<'ast>(decls: &Vec<LetDecl>, procs: &[AnnProc<'ast>]) -> (r: Option<
    Vec<LetBinding<'ast>>,
>)
    requires
        procs@.len() == decls_len(decls@, 0),
    ensures
        match r {
            Some(v) => let_bindings(decls@, 0, procs_model(procs@), 0) == Some(bindings_model(v@)),
            None => let_bindings(decls@, 0, procs_model(procs@), 0) is None,
        },
{
    let ghost all = procs_model(procs@);
    proof {
        assert(procs@.len() == procs.len());
    }
    let mut out: Vec<LetBinding<'ast>> = Vec::new();
    let mut i: usize = 0;
    let mut at: usize = 0;
    proof {
        assert(bindings_model(out@) + let_bindings(decls@, 0, all, 0)->0 =~= let_bindings(
            decls@,
            0,
            all,
            0,
        )->0);
    }
    while i < decls.len()
        invariant
            i <= decls@.len(),
            all == procs_model(procs@),
            all.len() == procs@.len(),
            procs@.len() <= usize::MAX,
            at + decls_len(decls@, i as int) == procs@.len(),
            let_bindings(decls@, 0, all, 0) == prepend(
                bindings_model(out@),
                let_bindings(decls@, i as int, all, at as int),
            ),
        decreases decls@.len() - i,
    {
        let n = decls[i].lhs_arity + decls[i].rhs_arity;
        let ghost before = bindings_model(out@);
        proof {
            lemma_model_subrange(procs@, at as int, at + n);
        }
        if !push_decl_bindings(&decls[i], slice_subrange(procs, at, at + n), &mut out) {
            return None;
        }
        proof {
            let first = decl_bindings(decls@[i as int], all.subrange(at as int, at + n))->0;
            let rest = let_bindings(decls@, i + 1, all, at + n);
            if rest is Some {
                assert(before + (first + rest->0) =~= (before + first) + rest->0);
            }
        }
        at = at + n;
        i += 1;
    }
    proof {
        assert(bindings_model(out@) + Seq::<LetBindingV>::empty() =~= bindings_model(out@));
    }
    Some(out)
}

impl<'ast> Rule<'ast> {
    /// The span of the construct that the rule builds.
    pub fn span(&self) -> (r: SourceSpan)
        ensures
            r == self@.span(),
    {
        match self {
            Rule::BinaryExp { span, .. } => *span,
            Rule::Bundle { span, .. } => *span,
            Rule::Contract { span, .. } => *span,
            Rule::Eval { span } => *span,
            Rule::ForComprehension { span, .. } => *span,
            Rule::IfThen { span } => *span,
            Rule::IfThenElse { span } => *span,
            Rule::Let { span, .. } => *span,
            Rule::List { span, .. } => *span,
            Rule::MapOf { span, .. } => *span,
            Rule::Match { span, .. } => *span,
            Rule::Method { span, .. } => *span,
            Rule::New { span, .. } => *span,
            Rule::Par { span } => *span,
            Rule::Quote { span } => *span,
            Rule::Send { span, .. } => *span,
            Rule::SendSync { span, .. } => *span,
            Rule::SendSyncWithCont { span, .. } => *span,
            Rule::SetOf { span, .. } => *span,
            Rule::Tuple { span, .. } => *span,
            Rule::UnaryExp { span, .. } => *span,
        }
    }

    /// How many operands the rule takes.
    pub fn arity(&self) -> (r: usize)
        requires
            self@.arity() <= usize::MAX,
        ensures
            r == self@.arity(),
    {
        match self {
            Rule::BinaryExp { .. } => 2,
            Rule::Bundle { .. } => 1,
            Rule::Contract { arity, .. } => *arity + 2,
            Rule::Eval { .. } => 1,
            Rule::ForComprehension { desc, .. } => 1 + receipts_total(desc),
            Rule::IfThen { .. } => 2,
            Rule::IfThenElse { .. } => 3,
            Rule::Let { let_decls, .. } => 1 + decls_total(let_decls),
            Rule::List { arity, .. } => *arity,
            Rule::MapOf { arity, has_remainder, .. } => 2 * *arity + if *has_remainder {
                1
            } else {
                0
            },
            Rule::Match { arity, .. } => 2 * *arity + 1,
            Rule::Method { arity, .. } => *arity + 1,
            Rule::New { .. } => 1,
            Rule::Par { .. } => 2,
            Rule::Quote { .. } => 1,
            Rule::Send { arity, .. } => *arity + 1,
            Rule::SendSync { arity, .. } => *arity + 1,
            Rule::SendSyncWithCont { arity, .. } => *arity + 2,
            Rule::SetOf { arity, .. } => *arity,
            Rule::Tuple { arity, .. } => *arity,
            Rule::UnaryExp { .. } => 1,
        }
    }
}

/// Builds what `rule` makes of its operands `args`, or nothing where an
/// operand is not of the shape that the rule needs.
#[verifier::rlimit(40)]
pub fn build<'ast>(rule: Rule<'ast>, args: &[AnnProc<'ast>], builder: &'ast ASTBuilder<'ast>) -> (r:
    Option<&'ast Proc<'ast>>)
    requires
        args@.len() == rule@.arity(),
    ensures
        match r {
            Some(p) => combine(rule@, procs_model(args@)) == Some(p@),
            None => combine(rule@, procs_model(args@)) is None,
        },
{
    let ghost ops = procs_model(args@);
    let n = args.len();
    proof {
        if n >= 1 {
            lemma_model_subrange(args@, 1, n as int);
        }
        if n >= 2 {
            lemma_model_subrange(args@, 2, n as int);
            lemma_model_subrange(args@, 1, n - 1);
        }
        if n >= 1 {
            lemma_model_subrange(args@, 0, n - 1);
            assert(ops.drop_last() =~= ops.take(n - 1));
        }
    }
    match rule {
        Rule::BinaryExp { op, .. } => Some(builder.alloc_binary_exp(op, args[0], args[1])),
        Rule::Bundle { typ, .. } => Some(builder.alloc_bundle(typ, args[0])),
        Rule::Contract { has_cont, .. } => {
            let name = match AnnName::try_from_ann_proc(args[0]) {
                Some(name) => name,
                None => {
                    return None;
                },
            };
            match Names::from_slice(slice_subrange(args, 2, n), has_cont) {
                Ok(formals) => Some(builder.alloc_contract(name, formals, args[1])),
                Err(_) => None,
            }
        },
        Rule::Eval { .. } => match AnnName::try_from_ann_proc(args[0]) {
            Some(name) => Some(builder.alloc_eval(name)),
            None => None,
        },
        Rule::ForComprehension { desc, .. } => match receipts_from(&desc, slice_subrange(args, 1, n)) {
            Some(receipts) => Some(builder.alloc_for(receipts, args[0])),
            None => None,
        },
        Rule::IfThen { .. } => Some(builder.alloc_if_then(args[0], args[1])),
        Rule::IfThenElse { .. } => Some(builder.alloc_if_then_else(args[0], args[1], args[2])),
        Rule::Let { concurrent, let_decls, .. } => match let_bindings_from(
            &let_decls,
            slice_subrange(args, 1, n),
        ) {
            Some(bindings) => Some(builder.alloc_let(bindings, args[0], concurrent)),
            None => None,
        },
        Rule::List { has_remainder, .. } => {
            if has_remainder {
                if n == 0 {
                    return None;
                }
                match Var::try_from_ann_proc(args[n - 1]) {
                    Some(v) => Some(
                        builder.alloc_list_with_remainder(slice_subrange(args, 0, n - 1), v),
                    ),
                    None => None,
                }
            } else {
                Some(builder.alloc_list(args))
            }
        },
        Rule::MapOf { has_remainder, .. } => {
            if has_remainder {
                match Var::try_from_ann_proc(args[0]) {
                    Some(v) => Some(builder.alloc_map_with_remainder(slice_subrange(args, 1, n), v)),
                    None => None,
                }
            } else {
                Some(builder.alloc_map(args))
            }
        },
        Rule::Match { .. } => Some(builder.alloc_match(args[0], slice_subrange(args, 1, n))),
        Rule::Method { id, .. } => Some(builder.alloc_method(id, args[0], slice_subrange(args, 1, n))),
        Rule::New { decls, .. } => Some(builder.alloc_new(args[0], decls)),
        Rule::Par { .. } => Some(builder.alloc_par(args[0], args[1])),
        Rule::Quote { .. } => Some(builder.alloc_quote(args[0].proc)),
        Rule::Send { send_type, .. } => match AnnName::try_from_ann_proc(args[0]) {
            Some(channel) => Some(builder.alloc_send(send_type, channel, slice_subrange(args, 1, n))),
            None => None,
        },
        Rule::SendSync { .. } => match AnnName::try_from_ann_proc(args[0]) {
            Some(channel) => Some(builder.alloc_send_sync(channel, slice_subrange(args, 1, n))),
            None => None,
        },
        Rule::SendSyncWithCont { .. } => match AnnName::try_from_ann_proc(args[0]) {
            Some(channel) => Some(
                builder.alloc_send_sync_with_cont(
                    channel,
                    slice_subrange(args, 1, n - 1),
                    args[n - 1],
                ),
            ),
            None => None,
        },
        Rule::SetOf { has_remainder, .. } => {
            if has_remainder {
                if n == 0 {
                    return None;
                }
                match Var::try_from_ann_proc(args[n - 1]) {
                    Some(v) => Some(builder.alloc_set_with_remainder(slice_subrange(args, 0, n - 1), v)),
                    None => None,
                }
            } else {
                Some(builder.alloc_set(args))
            }
        },
        Rule::Tuple { .. } => Some(builder.alloc_tuple(args)),
        Rule::UnaryExp { op, .. } => Some(builder.alloc_unary_exp(op, args[0].proc)),
    }
}

} // verus!
