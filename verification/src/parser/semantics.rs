//! What a syntax tree evaluates to.
//!
//! `eval` gives, for a node, the process that the driver builds for it, the
//! errors that it records on the way, and whether every construct had
//! operands of the shape it needs. It is defined by recursion on the tree;
//! the driver reaches the same result with two explicit stacks.
use vstd::prelude::*;
use crate::SourceSpan;
use crate::ast::{AnnProcV, ProcV};
use crate::cst::{field_position, named_from, next_named, CstNode, Field, NodeKind};
use crate::parser::errors::{AnnParsingErrorV, ParsingErrorV};
use crate::parser::plan::{
    binary_op, bind_plan, binds_plan, left_and_right, let_decl_of, let_plan, pair_count,
    pair_evals, plan, plan_bundle, plan_collection, plan_contract, plan_if, plan_input, plan_let,
    plan_match, plan_method, plan_new, plan_pair, plan_send, plan_send_sync, plan_single,
    receipts_plan, unary_op, EvalV, Plan,
};
use crate::parser::rules::{
    binds_len, built, combine, decls_len, receipts_len, BindDesc, LetDecl, RuleV,
};

verus! {

/// What becomes of one node.
pub ghost struct Outcome {
    /// The process that stands for the node.
    pub tree: AnnProcV,
    /// Whether every construct below the node got operands of the shape it
    /// needs.
    pub ok: bool,
    /// The semantic errors found at and below the node, in the order in which
    /// the driver meets them.
    pub errors: Seq<AnnParsingErrorV>,
    /// A bound on the number of steps that the driver spends on the node.
    pub work: nat,
}

/// What becomes of a run of nodes.
pub ghost struct Batch {
    pub trees: Seq<AnnProcV>,
    pub ok: bool,
    pub errors: Seq<AnnParsingErrorV>,
    pub work: nat,
}

/// The placeholder for what could not be read, at `span`.
pub open spec fn bad_at(span: SourceSpan) -> AnnProcV {
    AnnProcV { proc: Box::new(ProcV::Bad), span }
}

/// The batch of no node at all.
pub open spec fn nothing(work: nat) -> Batch {
    Batch { trees: Seq::empty(), ok: true, errors: Seq::empty(), work }
}

/// The batch of a single node.
pub open spec fn batch_of(o: Outcome, extra: nat) -> Batch {
    Batch { trees: seq![o.tree], ok: o.ok, errors: o.errors, work: o.work + extra }
}

/// One batch after another.
pub open spec fn join(a: Batch, b: Batch) -> Batch {
    Batch {
        trees: a.trees + b.trees,
        ok: a.ok && b.ok,
        errors: a.errors + b.errors,
        work: a.work + b.work,
    }
}

/// What becomes of `node`.
///
/// An error node or a missing token becomes the placeholder. A leaf becomes
/// its process. A composite construct becomes what its rule builds out of the
/// values of its operands, or the placeholder where an operand is not of
/// the shape that the rule needs; then `ok` is false. The branches that end
/// in `arbitrary` are never taken: an operand always lies below its construct.
pub open spec fn eval(node: CstNode) -> Outcome
    decreases node, 2nat, 0nat,
{
    if node.is_bad() {
        Outcome { tree: bad_at(node.span), ok: true, errors: Seq::empty(), work: 1 }
    } else {
        match plan(node) {
            Plan::Leaf { proc } => Outcome {
                tree: AnnProcV { proc: Box::new(proc), span: node.span },
                ok: true,
                errors: Seq::empty(),
                work: 1,
            },
            Plan::Fail => Outcome {
                tree: bad_at(node.span),
                ok: false,
                errors: Seq::empty(),
                work: 1,
            },
            Plan::OutOfRange => Outcome {
                tree: bad_at(node.span),
                ok: true,
                errors: seq![
                    AnnParsingErrorV { error: ParsingErrorV::NumberOutOfRange, span: node.span },
                ],
                work: 1,
            },
            Plan::Forward { to } => if decreases_to!(node => to) {
                let o = eval(to);
                Outcome { tree: o.tree, ok: o.ok, errors: o.errors, work: o.work + 1 }
            } else {
                arbitrary()
            },
            Plan::Build { rule, evals, errors } => {
                let b = eval_all(node, evals);
                Outcome {
                    tree: built(rule, b.trees),
                    ok: b.ok && combine(rule, b.trees) is Some,
                    errors: errors + b.errors,
                    work: b.work + 1,
                }
            },
        }
    }
}

/// What becomes of the operands that `evals` lists, which lie below
/// `node`.
pub open spec fn eval_all(node: CstNode, evals: Seq<EvalV>) -> Batch
    decreases node, 1nat, evals.len(),
{
    if evals.len() == 0 {
        nothing(0)
    } else {
        join(
            match evals[0] {
                EvalV::One(c) => if decreases_to!(node => c) {
                    batch_of(eval(c), 1)
                } else {
                    arbitrary()
                },
                EvalV::Named(p) => if decreases_to!(node => p) {
                    eval_named(p, 0)
                } else {
                    arbitrary()
                },
            },
            eval_all(node, evals.drop_first()),
        )
    }
}

/// What becomes of the named children of `parent` from position `from`
/// on.
pub open spec fn eval_named(parent: CstNode, from: int) -> Batch
    decreases parent, 0nat, parent.children@.len() - from,
{
    if from < 0 || from >= parent.children@.len() {
        nothing(1)
    } else if parent.children@[from].named {
        join(batch_of(eval(parent.children@[from]), 2), eval_named(parent, from + 1))
    } else {
        eval_named(parent, from + 1)
    }
}

/// Whether every operand that `evals` lists lies below `node`.
pub open spec fn descends(node: CstNode, evals: Seq<EvalV>) -> bool {
    forall|i: int|
        0 <= i < evals.len() ==> match #[trigger] evals[i] {
            EvalV::One(c) => decreases_to!(node => c),
            EvalV::Named(p) => decreases_to!(node => p),
        }
}

/// How many operands `evals` lists.
pub open spec fn operand_count(evals: Seq<EvalV>) -> nat
    decreases evals.len(),
{
    if evals.len() == 0 {
        0
    } else {
        (match evals[0] {
            EvalV::One(_) => 1nat,
            EvalV::Named(p) => p.named_children().len(),
        }) + operand_count(evals.drop_first())
    }
}

// ---------------------------------------------------------------------------
// Children lie below their parent
// ---------------------------------------------------------------------------

pub proof fn lemma_field_position(nodes: Seq<CstNode>, field: Field, from: int)
    requires
        0 <= from,
    ensures
        match field_position(nodes, field, from) {
            Some(i) => from <= i < nodes.len() && nodes[i].field == Some(field),
            None => true,
        },
    decreases nodes.len() - from,
{
    if from < nodes.len() && nodes[from].field != Some(field) {
        lemma_field_position(nodes, field, from + 1);
    }
}

pub proof fn lemma_named_from_member(nodes: Seq<CstNode>, from: int, k: int)
    requires
        0 <= from,
        0 <= k < named_from(nodes, from).len(),
    ensures
        exists|i: int| from <= i < nodes.len() && nodes[i] == named_from(nodes, from)[k],
    decreases nodes.len() - from,
{
    if from >= nodes.len() {
    } else if nodes[from].named {
        if k == 0 {
            assert(nodes[from] == named_from(nodes, from)[k]);
        } else {
            lemma_named_from_member(nodes, from + 1, k - 1);
            let i = choose|i: int|
                from + 1 <= i < nodes.len() && nodes[i] == named_from(nodes, from + 1)[k - 1];
            assert(nodes[i] == named_from(nodes, from)[k]);
        }
    } else {
        lemma_named_from_member(nodes, from + 1, k);
    }
}

pub proof fn lemma_named_len(nodes: Seq<CstNode>, from: int)
    requires
        0 <= from,
    ensures
        named_from(nodes, from).len() <= nodes.len() - from || named_from(nodes, from).len() == 0,
    decreases nodes.len() - from,
{
    if from < nodes.len() {
        lemma_named_len(nodes, from + 1);
    }
}

/// A node has no more named children than a machine word can count.
pub proof fn lemma_named_count_fits(node: CstNode)
    ensures
        node.named_children().len() <= usize::MAX,
{
    lemma_named_len(node.children@, 0);
    assert(node.children@.len() == node.children.len());
}

/// A child under a field lies below its parent.
pub proof fn lemma_field_child_below(node: CstNode, field: Field)
    ensures
        node.field_child(field) matches Some(c) ==> decreases_to!(node => c),
{
    lemma_field_position(node.children@, field, 0);
}

/// A named child lies below its parent.
pub proof fn lemma_named_child_below(node: CstNode, k: int)
    requires
        0 <= k < node.named_children().len(),
    ensures
        decreases_to!(node => node.named_children()[k]),
{
    lemma_named_from_member(node.children@, 0, k);
}

/// The first named child lies below its parent.
pub proof fn lemma_first_named_below(node: CstNode)
    ensures
        node.first_named() matches Some(c) ==> decreases_to!(node => c),
{
    if node.named_children().len() > 0 {
        lemma_named_child_below(node, 0);
    }
}

/// The first two named children lie below their parent.
pub proof fn lemma_left_and_right_below(node: CstNode)
    ensures
        left_and_right(node) matches Some((l, r)) ==> decreases_to!(node => l) && decreases_to!(node => r),
{
    if node.named_children().len() >= 2 {
        lemma_named_child_below(node, 0);
        lemma_named_child_below(node, 1);
    }
}

pub proof fn lemma_descends_concat(node: CstNode, a: Seq<EvalV>, b: Seq<EvalV>)
    requires
        descends(node, a),
        descends(node, b),
    ensures
        descends(node, a + b),
{
    assert forall|i: int| 0 <= i < (a + b).len() implies match #[trigger] (a + b)[i] {
        EvalV::One(c) => decreases_to!(node => c),
        EvalV::Named(p) => decreases_to!(node => p),
    } by {
        if i < a.len() {
            assert((a + b)[i] == a[i]);
        } else {
            assert((a + b)[i] == b[i - a.len()]);
        }
    }
}

/// What lies below a node that lies below `top` lies below `top`.
pub proof fn lemma_descends_deeper(top: CstNode, mid: CstNode, evals: Seq<EvalV>)
    requires
        decreases_to!(top => mid),
        descends(mid, evals),
    ensures
        descends(top, evals),
{
    assert forall|i: int| 0 <= i < evals.len() implies match #[trigger] evals[i] {
        EvalV::One(c) => decreases_to!(top => c),
        EvalV::Named(p) => decreases_to!(top => p),
    } by {
        match evals[i] {
            EvalV::One(c) => {
                assert(decreases_to!(mid => c));
            },
            EvalV::Named(p) => {
                assert(decreases_to!(mid => p));
            },
        }
    }
}

pub proof fn lemma_pairs_descend(
    parent: CstNode,
    kind: NodeKind,
    first: Field,
    second: Field,
    from: int,
)
    requires
        0 <= from,
    ensures
        pair_evals(parent.children@, kind, first, second, from) matches Some(es) ==> descends(
            parent,
            es,
        ),
    decreases parent.children@.len() - from,
{
    let children = parent.children@;
    if from < children.len() {
        lemma_pairs_descend(parent, kind, first, second, from + 1);
        let rest = pair_evals(children, kind, first, second, from + 1);
        if children[from].named && children[from].kind == kind {
            let child = children[from];
            lemma_field_child_below(child, first);
            lemma_field_child_below(child, second);
            if child.field_child(first) is Some && child.field_child(second) is Some && rest is Some {
                let a = child.field_child(first)->0;
                let b = child.field_child(second)->0;
                let step = seq![EvalV::One(a), EvalV::One(b)];
                assert(decreases_to!(parent => child));
                assert(decreases_to!(parent => a));
                assert(decreases_to!(parent => b));
                assert(descends(parent, step));
                lemma_descends_concat(parent, step, rest->0);
            }
        }
    }
}

#[verifier::rlimit(40)]
pub proof fn lemma_bind_descends(bind: CstNode)
    ensures
        bind_plan(bind) matches Some(b) ==> descends(bind, b.evals),
{
    let named = bind.named_children();
    if named.len() > 0 && bind_plan(bind) is Some {
        lemma_named_child_below(bind, 0);
        if named.len() > 1 {
            lemma_named_child_below(bind, 1);
        }
        let source = if named.len() > 1 {
            named[1]
        } else {
            named[0]
        };
        lemma_first_named_below(source);
        lemma_field_child_below(source, Field::Inputs);
        let names_evals: Seq<EvalV> = if named.len() > 1 {
            seq![EvalV::Named(named[0])]
        } else {
            Seq::empty()
        };
        assert(descends(bind, names_evals));
        assert(decreases_to!(bind => source));
        let b = bind_plan(bind)->0;
        match bind.kind {
            NodeKind::LinearBind => {
                let channel = source.first_named()->0;
                assert(decreases_to!(bind => channel));
                match source.kind {
                    NodeKind::SendReceiveSource => {
                        let inputs = source.field_child(Field::Inputs)->0;
                        assert(decreases_to!(bind => inputs));
                        let head = seq![EvalV::One(channel), EvalV::Named(inputs)];
                        assert(descends(bind, head));
                        lemma_descends_concat(bind, head, names_evals);
                    },
                    _ => {
                        let head = seq![EvalV::One(channel)];
                        assert(descends(bind, head));
                        lemma_descends_concat(bind, head, names_evals);
                    },
                }
            },
            _ => {
                let head = seq![EvalV::One(source)];
                assert(descends(bind, head));
                lemma_descends_concat(bind, head, names_evals);
            },
        }
    }
}

pub proof fn lemma_binds_descend(receipt: CstNode, from: int)
    requires
        0 <= from,
    ensures
        binds_plan(receipt.children@, from) matches Some(p) ==> descends(receipt, p.1),
    decreases receipt.children@.len() - from,
{
    let children = receipt.children@;
    if from < children.len() {
        lemma_binds_descend(receipt, from + 1);
        let rest = binds_plan(children, from + 1);
        if children[from].named && bind_plan(children[from]) is Some && rest is Some {
            let bind = children[from];
            lemma_bind_descends(bind);
            assert(decreases_to!(receipt => bind));
            lemma_descends_deeper(receipt, bind, bind_plan(bind)->0.evals);
            lemma_descends_concat(receipt, bind_plan(bind)->0.evals, (rest->0).1);
        }
    }
}

pub proof fn lemma_receipts_descend(receipts: CstNode, from: int)
    requires
        0 <= from,
    ensures
        receipts_plan(receipts.children@, from) matches Some(p) ==> descends(receipts, p.1),
    decreases receipts.children@.len() - from,
{
    let children = receipts.children@;
    if from < children.len() {
        lemma_receipts_descend(receipts, from + 1);
        let rest = receipts_plan(children, from + 1);
        if children[from].named && binds_plan(children[from].children@, 0) is Some && rest is Some {
            let receipt = children[from];
            lemma_binds_descend(receipt, 0);
            assert(decreases_to!(receipts => receipt));
            let evals = (binds_plan(receipt.children@, 0)->0).1;
            lemma_descends_deeper(receipts, receipt, evals);
            lemma_descends_concat(receipts, evals, (rest->0).1);
        }
    }
}

pub proof fn lemma_let_descends(decls: CstNode, from: int)
    requires
        0 <= from,
    ensures
        let_plan(decls.children@, from) matches Some(p) ==> descends(decls, p.evals),
    decreases decls.children@.len() - from,
{
    let children = decls.children@;
    if from < children.len() {
        lemma_let_descends(decls, from + 1);
        let rest = let_plan(children, from + 1);
        if children[from].named && left_and_right(children[from]) is Some && rest is Some {
            let decl = children[from];
            lemma_left_and_right_below(decl);
            let (lhs, rhs) = left_and_right(decl)->0;
            assert(decreases_to!(decls => decl));
            assert(decreases_to!(decls => lhs));
            assert(decreases_to!(decls => rhs));
            let step = seq![EvalV::Named(lhs), EvalV::Named(rhs)];
            assert(descends(decls, step));
            lemma_descends_concat(decls, step, rest->0.evals);
        }
    }
}

/// The operands of a construct lie below it.
#[verifier::rlimit(40)]
pub proof fn lemma_plan_descends(node: CstNode)
    ensures
        match plan(node) {
            Plan::Forward { to } => decreases_to!(node => to),
            Plan::Build { evals, .. } => descends(node, evals),
            _ => true,
        },
{
    lemma_first_named_below(node);
    lemma_left_and_right_below(node);
    lemma_field_child_below(node, Field::Receiver);
    lemma_field_child_below(node, Field::Name);
    lemma_field_child_below(node, Field::Args);
    lemma_field_child_below(node, Field::Channel);
    lemma_field_child_below(node, Field::Inputs);
    lemma_field_child_below(node, Field::Decls);
    lemma_field_child_below(node, Field::Proc);
    lemma_field_child_below(node, Field::Formals);
    lemma_field_child_below(node, Field::Cont);
    lemma_field_child_below(node, Field::Condition);
    lemma_field_child_below(node, Field::Consequence);
    lemma_field_child_below(node, Field::Alternative);
    lemma_field_child_below(node, Field::Receipts);
    lemma_field_child_below(node, Field::Expression);
    lemma_field_child_below(node, Field::Cases);
    match plan(node) {
        Plan::Build { evals, .. } => {
            match node.kind {
                NodeKind::Collection => {
                    let c = node.first_named()->0;
                    lemma_field_child_below(c, Field::Remainder);
                    lemma_pairs_descend(c, NodeKind::KeyValuePair, Field::Key, Field::Value, 0);
                    if c.kind == NodeKind::MapOf {
                        let pairs = pair_evals(
                            c.children@,
                            NodeKind::KeyValuePair,
                            Field::Key,
                            Field::Value,
                            0,
                        )->0;
                        lemma_descends_deeper(node, c, pairs);
                        let head: Seq<EvalV> = match c.field_child(Field::Remainder) {
                            Some(r) => seq![EvalV::One(r)],
                            None => Seq::empty(),
                        };
                        if c.field_child(Field::Remainder) is Some {
                            assert(decreases_to!(node => c.field_child(Field::Remainder)->0));
                        }
                        assert(descends(node, head));
                        lemma_descends_concat(node, head, pairs);
                    }
                },
                NodeKind::Match => {
                    let cases = node.field_child(Field::Cases)->0;
                    lemma_pairs_descend(cases, NodeKind::Case, Field::Pattern, Field::Proc, 0);
                    let pairs = pair_evals(
                        cases.children@,
                        NodeKind::Case,
                        Field::Pattern,
                        Field::Proc,
                        0,
                    )->0;
                    lemma_descends_deeper(node, cases, pairs);
                    let head = seq![EvalV::One(node.field_child(Field::Expression)->0)];
                    assert(descends(node, head));
                    lemma_descends_concat(node, head, pairs);
                },
                NodeKind::Input => {
                    let receipts = node.field_child(Field::Receipts)->0;
                    lemma_receipts_descend(receipts, 0);
                    let evals = (receipts_plan(receipts.children@, 0)->0).1;
                    lemma_descends_deeper(node, receipts, evals);
                    let head = seq![EvalV::One(node.field_child(Field::Proc)->0)];
                    assert(descends(node, head));
                    lemma_descends_concat(node, head, evals);
                },
                NodeKind::Let => {
                    let decls = node.field_child(Field::Decls)->0;
                    lemma_let_descends(decls, 0);
                    let evals = let_plan(decls.children@, 0)->0.evals;
                    lemma_descends_deeper(node, decls, evals);
                    let head = seq![EvalV::One(node.field_child(Field::Proc)->0)];
                    assert(descends(node, head));
                    lemma_descends_concat(node, head, evals);
                },
                NodeKind::SendSync => {
                    let cont = node.field_child(Field::Cont)->0;
                    lemma_first_named_below(cont);
                    let choice = cont.first_named()->0;
                    lemma_first_named_below(choice);
                    if choice.kind == NodeKind::NonEmptyCont {
                        assert(decreases_to!(node => choice.first_named()->0));
                    }
                },
                _ => {},
            }
        },
        _ => {},
    }
}

// ---------------------------------------------------------------------------
// A rule takes as many operands as its construct has
// ---------------------------------------------------------------------------

pub proof fn lemma_count_concat(a: Seq<EvalV>, b: Seq<EvalV>)
    ensures
        operand_count(a + b) == operand_count(a) + operand_count(b),
    decreases a.len(),
{
    if a.len() == 0 {
        assert(a + b =~= b);
    } else {
        assert((a + b).drop_first() =~= a.drop_first() + b);
        lemma_count_concat(a.drop_first(), b);
    }
}

pub proof fn lemma_count_one(e: EvalV)
    ensures
        operand_count(seq![e]) == (match e {
            EvalV::One(_) => 1nat,
            EvalV::Named(p) => p.named_children().len(),
        }),
{
    reveal_with_fuel(operand_count, 2);
    assert(seq![e].drop_first() =~= Seq::<EvalV>::empty());
}

pub proof fn lemma_count_two(a: EvalV, b: EvalV)
    ensures
        operand_count(seq![a, b]) == operand_count(seq![a]) + operand_count(seq![b]),
{
    assert(seq![a, b] =~= seq![a] + seq![b]);
    lemma_count_concat(seq![a], seq![b]);
}

pub proof fn lemma_count_three(a: EvalV, b: EvalV, c: EvalV)
    ensures
        operand_count(seq![a, b, c]) == operand_count(seq![a]) + operand_count(seq![b])
            + operand_count(seq![c]),
{
    assert(seq![a, b, c] =~= seq![a, b] + seq![c]);
    lemma_count_concat(seq![a, b], seq![c]);
    lemma_count_two(a, b);
}

pub proof fn lemma_pairs_count(
    children: Seq<CstNode>,
    kind: NodeKind,
    first: Field,
    second: Field,
    from: int,
)
    requires
        0 <= from,
    ensures
        pair_evals(children, kind, first, second, from) matches Some(es) ==> operand_count(es) == 2
            * pair_count(children, kind, from),
    decreases children.len() - from,
{
    if from < children.len() {
        lemma_pairs_count(children, kind, first, second, from + 1);
        let rest = pair_evals(children, kind, first, second, from + 1);
        if children[from].named && children[from].kind == kind && rest is Some {
            let child = children[from];
            if child.field_child(first) is Some && child.field_child(second) is Some {
                let a = EvalV::One(child.field_child(first)->0);
                let b = EvalV::One(child.field_child(second)->0);
                lemma_count_concat(seq![a, b], rest->0);
                lemma_count_two(a, b);
                lemma_count_one(a);
                lemma_count_one(b);
            }
        }
    }
}

pub proof fn lemma_binds_len_shift(d: BindDesc, rest: Seq<BindDesc>, k: int)
    requires
        0 <= k,
    ensures
        binds_len(seq![d] + rest, k + 1) == binds_len(rest, k),
    decreases rest.len() - k,
{
    let all = seq![d] + rest;
    if k < rest.len() {
        assert(all[k + 1] == rest[k]);
        lemma_binds_len_shift(d, rest, k + 1);
    }
}

pub proof fn lemma_receipts_len_shift(d: Seq<BindDesc>, rest: Seq<Seq<BindDesc>>, k: int)
    requires
        0 <= k,
    ensures
        receipts_len(seq![d] + rest, k + 1) == receipts_len(rest, k),
    decreases rest.len() - k,
{
    let all = seq![d] + rest;
    if k < rest.len() {
        assert(all[k + 1] == rest[k]);
        lemma_receipts_len_shift(d, rest, k + 1);
    }
}

pub proof fn lemma_decls_len_shift(d: LetDecl, rest: Seq<LetDecl>, k: int)
    requires
        0 <= k,
    ensures
        decls_len(seq![d] + rest, k + 1) == decls_len(rest, k),
    decreases rest.len() - k,
{
    let all = seq![d] + rest;
    if k < rest.len() {
        assert(all[k + 1] == rest[k]);
        lemma_decls_len_shift(d, rest, k + 1);
    }
}

#[verifier::rlimit(40)]
pub proof fn lemma_bind_count(bind: CstNode)
    ensures
        bind_plan(bind) matches Some(b) ==> operand_count(b.evals) == b.desc.arity_spec(),
{
    let named = bind.named_children();
    if named.len() > 0 && bind_plan(bind) is Some {
        let b = bind_plan(bind)->0;
        let source = if named.len() > 1 {
            named[1]
        } else {
            named[0]
        };
        let names_evals: Seq<EvalV> = if named.len() > 1 {
            seq![EvalV::Named(named[0])]
        } else {
            Seq::empty()
        };
        if named.len() > 1 {
            lemma_named_count_fits(named[0]);
            lemma_count_one(EvalV::Named(named[0]));
        }
        match bind.kind {
            NodeKind::LinearBind => {
                let channel = EvalV::One(source.first_named()->0);
                lemma_count_one(channel);
                match source.kind {
                    NodeKind::SendReceiveSource => {
                        let inputs = source.field_child(Field::Inputs)->0;
                        lemma_named_count_fits(inputs);
                        lemma_count_one(EvalV::Named(inputs));
                        lemma_count_two(channel, EvalV::Named(inputs));
                        lemma_count_concat(seq![channel, EvalV::Named(inputs)], names_evals);
                    },
                    _ => {
                        lemma_count_concat(seq![channel], names_evals);
                    },
                }
            },
            _ => {
                lemma_count_one(EvalV::One(source));
                lemma_count_concat(seq![EvalV::One(source)], names_evals);
            },
        }
    }
}

pub proof fn lemma_binds_count(children: Seq<CstNode>, from: int)
    requires
        0 <= from,
    ensures
        binds_plan(children, from) matches Some(p) ==> operand_count(p.1) == binds_len(p.0, 0),
    decreases children.len() - from,
{
    if from < children.len() {
        lemma_binds_count(children, from + 1);
        let rest = binds_plan(children, from + 1);
        if children[from].named && bind_plan(children[from]) is Some && rest is Some {
            let b = bind_plan(children[from])->0;
            lemma_bind_count(children[from]);
            lemma_count_concat(b.evals, (rest->0).1);
            lemma_binds_len_shift(b.desc, (rest->0).0, 0);
            assert((seq![b.desc] + (rest->0).0)[0] == b.desc);
        }
    }
}

pub proof fn lemma_receipts_count(children: Seq<CstNode>, from: int)
    requires
        0 <= from,
    ensures
        receipts_plan(children, from) matches Some(p) ==> operand_count(p.1) == receipts_len(p.0, 0),
    decreases children.len() - from,
{
    if from < children.len() {
        lemma_receipts_count(children, from + 1);
        let rest = receipts_plan(children, from + 1);
        if children[from].named && binds_plan(children[from].children@, 0) is Some && rest is Some {
            let b = binds_plan(children[from].children@, 0)->0;
            lemma_binds_count(children[from].children@, 0);
            lemma_count_concat(b.1, (rest->0).1);
            lemma_receipts_len_shift(b.0, (rest->0).0, 0);
            assert((seq![b.0] + (rest->0).0)[0] == b.0);
        }
    }
}

pub proof fn lemma_let_count(children: Seq<CstNode>, from: int)
    requires
        0 <= from,
    ensures
        let_plan(children, from) matches Some(p) ==> operand_count(p.evals) == decls_len(p.decls, 0),
    decreases children.len() - from,
{
    if from < children.len() {
        lemma_let_count(children, from + 1);
        let rest = let_plan(children, from + 1);
        if children[from].named && left_and_right(children[from]) is Some && rest is Some {
            let (lhs, rhs) = left_and_right(children[from])->0;
            let d = let_decl_of(children[from])->0;
            lemma_named_count_fits(lhs);
            lemma_named_count_fits(rhs);
            lemma_count_two(EvalV::Named(lhs), EvalV::Named(rhs));
            lemma_count_one(EvalV::Named(lhs));
            lemma_count_one(EvalV::Named(rhs));
            lemma_count_concat(seq![EvalV::Named(lhs), EvalV::Named(rhs)], rest->0.evals);
            lemma_decls_len_shift(d, rest->0.decls, 0);
            assert((seq![d] + rest->0.decls)[0] == d);
        }
    }
}

pub proof fn lemma_fixed_balanced(evals: Seq<EvalV>)
    requires
        1 <= evals.len() <= 3,
    ensures
        operand_count(evals) == (match evals[0] {
            EvalV::One(_) => 1nat,
            EvalV::Named(p) => p.named_children().len(),
        }) + (if evals.len() >= 2 {
            match evals[1] {
                EvalV::One(_) => 1nat,
                EvalV::Named(p) => p.named_children().len(),
            }
        } else {
            0nat
        }) + (if evals.len() >= 3 {
            match evals[2] {
                EvalV::One(_) => 1nat,
                EvalV::Named(p) => p.named_children().len(),
            }
        } else {
            0nat
        }),
{
    if evals.len() == 1 {
        assert(evals =~= seq![evals[0]]);
        lemma_count_one(evals[0]);
    } else if evals.len() == 2 {
        assert(evals =~= seq![evals[0], evals[1]]);
        lemma_count_two(evals[0], evals[1]);
        lemma_count_one(evals[0]);
        lemma_count_one(evals[1]);
    } else {
        assert(evals =~= seq![evals[0], evals[1], evals[2]]);
        lemma_count_three(evals[0], evals[1], evals[2]);
        lemma_count_one(evals[0]);
        lemma_count_one(evals[1]);
        lemma_count_one(evals[2]);
    }
}

pub proof fn lemma_single_balanced(node: CstNode, rule: RuleV)
    requires
        rule.arity() == 1,
    ensures
        plan_single(node, rule) matches Plan::Build { rule: r, evals, .. } ==> operand_count(evals)
            == r.arity(),
{
    if let Plan::Build { evals, .. } = plan_single(node, rule) {
        lemma_fixed_balanced(evals);
    }
}

pub proof fn lemma_pair_balanced(node: CstNode, rule: RuleV)
    requires
        rule.arity() == 2,
    ensures
        plan_pair(node, rule) matches Plan::Build { rule: r, evals, .. } ==> operand_count(evals)
            == r.arity(),
{
    if let Plan::Build { evals, .. } = plan_pair(node, rule) {
        lemma_fixed_balanced(evals);
    }
}

pub proof fn lemma_method_balanced(node: CstNode)
    ensures
        plan_method(node) matches Plan::Build { rule, evals, .. } ==> operand_count(evals)
            == rule.arity(),
{
    if let Plan::Build { evals, .. } = plan_method(node) {
        lemma_fixed_balanced(evals);
    }
}

pub proof fn lemma_send_balanced(node: CstNode)
    ensures
        plan_send(node) matches Plan::Build { rule, evals, .. } ==> operand_count(evals)
            == rule.arity(),
{
    if let Plan::Build { evals, .. } = plan_send(node) {
        lemma_fixed_balanced(evals);
    }
}

pub proof fn lemma_contract_balanced(node: CstNode)
    ensures
        plan_contract(node) matches Plan::Build { rule, evals, .. } ==> operand_count(evals)
            == rule.arity(),
{
    if let Plan::Build { evals, .. } = plan_contract(node) {
        lemma_fixed_balanced(evals);
    }
}

pub proof fn lemma_if_balanced(node: CstNode)
    ensures
        plan_if(node) matches Plan::Build { rule, evals, .. } ==> operand_count(evals)
            == rule.arity(),
{
    if let Plan::Build { evals, .. } = plan_if(node) {
        lemma_fixed_balanced(evals);
    }
}

pub proof fn lemma_bundle_balanced(node: CstNode)
    ensures
        plan_bundle(node) matches Plan::Build { rule, evals, .. } ==> operand_count(evals)
            == rule.arity(),
{
    if let Plan::Build { evals, .. } = plan_bundle(node) {
        lemma_fixed_balanced(evals);
    }
}

pub proof fn lemma_send_sync_balanced(node: CstNode)
    ensures
        plan_send_sync(node) matches Plan::Build { rule, evals, .. } ==> operand_count(evals)
            == rule.arity(),
{
    if let Plan::Build { evals, .. } = plan_send_sync(node) {
        lemma_fixed_balanced(evals);
    }
}

pub proof fn lemma_new_balanced(node: CstNode)
    ensures
        plan_new(node) matches Plan::Build { rule, evals, .. } ==> operand_count(evals)
            == rule.arity(),
{
    if let Plan::Build { evals, .. } = plan_new(node) {
        lemma_fixed_balanced(evals);
    }
}

pub proof fn lemma_collection_balanced(node: CstNode)
    ensures
        plan_collection(node) matches Plan::Build { rule, evals, .. } ==> operand_count(evals)
            == rule.arity(),
{
    if let Plan::Build { evals, .. } = plan_collection(node) {
        let c = node.first_named()->0;
        if c.kind == NodeKind::MapOf {
            lemma_pairs_count(c.children@, NodeKind::KeyValuePair, Field::Key, Field::Value, 0);
            let pairs = pair_evals(c.children@, NodeKind::KeyValuePair, Field::Key, Field::Value, 0)->0;
            let head: Seq<EvalV> = match c.field_child(Field::Remainder) {
                Some(r) => seq![EvalV::One(r)],
                None => Seq::empty(),
            };
            if c.field_child(Field::Remainder) is Some {
                lemma_count_one(EvalV::One(c.field_child(Field::Remainder)->0));
            }
            lemma_count_concat(head, pairs);
        } else {
            lemma_fixed_balanced(evals);
        }
    }
}

pub proof fn lemma_match_balanced(node: CstNode)
    ensures
        plan_match(node) matches Plan::Build { rule, evals, .. } ==> operand_count(evals)
            == rule.arity(),
{
    if let Plan::Build { evals, .. } = plan_match(node) {
        let cases = node.field_child(Field::Cases)->0;
        lemma_pairs_count(cases.children@, NodeKind::Case, Field::Pattern, Field::Proc, 0);
        let pairs = pair_evals(cases.children@, NodeKind::Case, Field::Pattern, Field::Proc, 0)->0;
        let head = EvalV::One(node.field_child(Field::Expression)->0);
        lemma_count_one(head);
        lemma_count_concat(seq![head], pairs);
    }
}

pub proof fn lemma_input_balanced(node: CstNode)
    ensures
        plan_input(node) matches Plan::Build { rule, evals, .. } ==> operand_count(evals)
            == rule.arity(),
{
    if let Plan::Build { evals, .. } = plan_input(node) {
        let receipts = node.field_child(Field::Receipts)->0;
        lemma_receipts_count(receipts.children@, 0);
        let head = EvalV::One(node.field_child(Field::Proc)->0);
        lemma_count_one(head);
        lemma_count_concat(seq![head], (receipts_plan(receipts.children@, 0)->0).1);
    }
}

pub proof fn lemma_let_balanced(node: CstNode)
    ensures
        plan_let(node) matches Plan::Build { rule, evals, .. } ==> operand_count(evals)
            == rule.arity(),
{
    if let Plan::Build { evals, .. } = plan_let(node) {
        let decls = node.field_child(Field::Decls)->0;
        lemma_let_count(decls.children@, 0);
        let head = EvalV::One(node.field_child(Field::Proc)->0);
        lemma_count_one(head);
        lemma_count_concat(seq![head], let_plan(decls.children@, 0)->0.evals);
    }
}

/// Balanced consumption: the rule that the driver leaves behind for a
/// construct takes exactly as many operands as the driver schedules for the
/// construct.
pub proof fn lemma_plan_balanced(node: CstNode)
    ensures
        plan(node) matches Plan::Build { rule, evals, .. } ==> operand_count(evals) == rule.arity(),
{
    match node.kind {
        NodeKind::Par => lemma_pair_balanced(node, RuleV::Par { span: node.span }),
        NodeKind::Eval => lemma_single_balanced(node, RuleV::Eval { span: node.span }),
        NodeKind::Quote => lemma_single_balanced(node, RuleV::Quote { span: node.span }),
        NodeKind::Method => lemma_method_balanced(node),
        NodeKind::Collection => lemma_collection_balanced(node),
        NodeKind::Send => lemma_send_balanced(node),
        NodeKind::New => lemma_new_balanced(node),
        NodeKind::Contract => lemma_contract_balanced(node),
        NodeKind::IfElse => lemma_if_balanced(node),
        NodeKind::Input => lemma_input_balanced(node),
        NodeKind::Match => lemma_match_balanced(node),
        NodeKind::Let => lemma_let_balanced(node),
        NodeKind::Bundle => lemma_bundle_balanced(node),
        NodeKind::SendSync => lemma_send_sync_balanced(node),
        _ => match binary_op(node.kind) {
            Some(op) => lemma_pair_balanced(node, RuleV::BinaryExp { op, span: node.span }),
            None => match unary_op(node.kind) {
                Some(op) => lemma_single_balanced(node, RuleV::UnaryExp { op, span: node.span }),
                None => {},
            },
        },
    }
}

pub proof fn lemma_eval_named_len(parent: CstNode, from: int)
    requires
        0 <= from,
    ensures
        eval_named(parent, from).trees.len() == named_from(parent.children@, from).len(),
    decreases parent.children@.len() - from,
{
    if from < parent.children@.len() {
        lemma_eval_named_len(parent, from + 1);
    }
}

pub proof fn lemma_eval_all_len(node: CstNode, evals: Seq<EvalV>)
    requires
        descends(node, evals),
    ensures
        eval_all(node, evals).trees.len() == operand_count(evals),
    decreases evals.len(),
{
    if evals.len() > 0 {
        assert(descends(node, evals.drop_first())) by {
            assert forall|i: int| 0 <= i < evals.drop_first().len() implies match #[trigger] evals.drop_first()[i] {
                EvalV::One(c) => decreases_to!(node => c),
                EvalV::Named(p) => decreases_to!(node => p),
            } by {
                assert(evals.drop_first()[i] == evals[i + 1]);
            }
        }
        lemma_eval_all_len(node, evals.drop_first());
        match evals[0] {
            EvalV::One(c) => {},
            EvalV::Named(p) => {
                lemma_eval_named_len(p, 0);
            },
        }
    }
}

/// Unnamed children are passed over.
pub proof fn lemma_eval_named_skip(parent: CstNode, from: int)
    requires
        0 <= from,
    ensures
        match next_named(parent.children@, from) {
            Some(i) => from <= i < parent.children@.len() && parent.children@[i].named && eval_named(
                parent,
                from,
            ) == join(batch_of(eval(parent.children@[i]), 2), eval_named(parent, i + 1)),
            None => eval_named(parent, from) == nothing(1),
        },
    decreases parent.children@.len() - from,
{
    if from < parent.children@.len() && !parent.children@[from].named {
        lemma_eval_named_skip(parent, from + 1);
    }
}

/// The node whose span the process of `node` bears: `node` itself, or, for a
/// node that only wraps another one, what that one bears.
pub open spec fn bearer(node: CstNode) -> CstNode
    decreases node,
{
    if node.is_bad() {
        node
    } else {
        match plan(node) {
            Plan::Forward { to } => if decreases_to!(node => to) {
                bearer(to)
            } else {
                node
            },
            _ => node,
        }
    }
}

/// Every process bears the span of one syntax node.
pub proof fn lemma_tree_span(node: CstNode)
    ensures
        eval(node).tree.span == bearer(node).span,
    decreases node,
{
    if !node.is_bad() {
        lemma_plan_descends(node);
        match plan(node) {
            Plan::Forward { to } => {
                lemma_tree_span(to);
            },
            Plan::Build { rule, .. } => {
                lemma_rule_span(node);
            },
            _ => {},
        }
    }
}

/// Whether a plan that builds something builds it at `span`.
pub open spec fn builds_at(p: Plan, span: SourceSpan) -> bool {
    p matches Plan::Build { rule, .. } ==> rule.span() == span
}

pub proof fn lemma_single_span(node: CstNode, rule: RuleV)
    ensures
        builds_at(plan_single(node, rule), rule.span()),
{
}

pub proof fn lemma_pair_span(node: CstNode, rule: RuleV)
    ensures
        builds_at(plan_pair(node, rule), rule.span()),
{
}

pub proof fn lemma_method_span(node: CstNode)
    ensures
        builds_at(plan_method(node), node.span),
{
}

pub proof fn lemma_send_span(node: CstNode)
    ensures
        builds_at(plan_send(node), node.span),
{
}

pub proof fn lemma_contract_span(node: CstNode)
    ensures
        builds_at(plan_contract(node), node.span),
{
}

pub proof fn lemma_if_span(node: CstNode)
    ensures
        builds_at(plan_if(node), node.span),
{
}

pub proof fn lemma_bundle_span(node: CstNode)
    ensures
        builds_at(plan_bundle(node), node.span),
{
}

pub proof fn lemma_send_sync_span(node: CstNode)
    ensures
        builds_at(plan_send_sync(node), node.span),
{
}

pub proof fn lemma_new_span(node: CstNode)
    ensures
        builds_at(plan_new(node), node.span),
{
}

pub proof fn lemma_collection_span(node: CstNode)
    ensures
        builds_at(plan_collection(node), node.span),
{
}

pub proof fn lemma_match_span(node: CstNode)
    ensures
        builds_at(plan_match(node), node.span),
{
}

pub proof fn lemma_input_span(node: CstNode)
    ensures
        builds_at(plan_input(node), node.span),
{
}

pub proof fn lemma_let_span(node: CstNode)
    ensures
        builds_at(plan_let(node), node.span),
{
}

/// The rule of a construct bears the span of the construct.
pub proof fn lemma_rule_span(node: CstNode)
    ensures
        builds_at(plan(node), node.span),
{
    match node.kind {
        NodeKind::Par => lemma_pair_span(node, RuleV::Par { span: node.span }),
        NodeKind::Eval => lemma_single_span(node, RuleV::Eval { span: node.span }),
        NodeKind::Quote => lemma_single_span(node, RuleV::Quote { span: node.span }),
        NodeKind::Method => lemma_method_span(node),
        NodeKind::Collection => lemma_collection_span(node),
        NodeKind::Send => lemma_send_span(node),
        NodeKind::New => lemma_new_span(node),
        NodeKind::Contract => lemma_contract_span(node),
        NodeKind::IfElse => lemma_if_span(node),
        NodeKind::Input => lemma_input_span(node),
        NodeKind::Match => lemma_match_span(node),
        NodeKind::Let => lemma_let_span(node),
        NodeKind::Bundle => lemma_bundle_span(node),
        NodeKind::SendSync => lemma_send_sync_span(node),
        _ => match binary_op(node.kind) {
            Some(op) => lemma_pair_span(node, RuleV::BinaryExp { op, span: node.span }),
            None => match unary_op(node.kind) {
                Some(op) => lemma_single_span(node, RuleV::UnaryExp { op, span: node.span }),
                None => {},
            },
        },
    }
}

} // verus!
