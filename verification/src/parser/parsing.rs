//! The driver: a stack machine that rewrites a syntax tree into an abstract
//! syntax tree without recursion.
//!
//! The machine keeps two stacks. The continuation stack says what is left to
//! do: nodes still to be evaluated, and rules that combine operands once
//! they are there. The operand stack holds the processes made so far.
use vstd::prelude::*;
use vstd::slice::slice_subrange;
use crate::SourceSpan;
use crate::ast::{procs_model, AnnProc, AnnProcV, Proc};
use crate::cst::{next_named, CstNode};
use crate::parser::ast_builder::ASTBuilder;
use crate::parser::errors::{
    errors_model, listed_errors, nonempty_errors, query_errors, scan, AnnParsingError,
    AnnParsingErrorV, ParsingError, ParsingFailure,
};
use crate::parser::plan::{classify, plan, Classified, EvalV, Pending, pending_model};
use crate::parser::rules::{build, built, combine, lemma_model_subrange, Rule, RuleV};
use crate::parser::semantics::{
    batch_of, descends, eval, eval_all, eval_named, join, lemma_eval_all_len,
    lemma_eval_named_skip, lemma_plan_balanced, lemma_plan_descends, nothing, Batch,
};

verus! {

// ---------------------------------------------------------------------------
// The machine, in the abstract
// ---------------------------------------------------------------------------

/// One entry of the continuation stack.
#[derive(Debug, Clone)]
pub enum K<'ast> {
    /// Take as many operands as the rule needs and put what it builds in
    /// their place.
    Consume(Rule<'ast>),
    /// Evaluate this node next.
    EvalDelayed(&'ast CstNode),
    /// Evaluate the named children of `parent` from position `next` on.
    EvalList { parent: &'ast CstNode, next: usize },
}

pub ghost enum KV {
    Consume(RuleV),
    EvalDelayed(CstNode),
    EvalList { parent: CstNode, next: int },
}

impl<'ast> K<'ast> {
    pub open spec fn model(&self) -> KV {
        match self {
            K::Consume(rule) => KV::Consume(rule@),
            K::EvalDelayed(node) => KV::EvalDelayed(**node),
            K::EvalList { parent, next } => KV::EvalList { parent: **parent, next: *next as int },
        }
    }
}

/// The twins of a continuation stack, bottom first.
pub open spec fn ks_model(s: Seq<K>) -> Seq<KV> {
    s.map_values(|k: K| k.model())
}

/// What the machine has made so far.
pub ghost struct Run {
    pub procs: Seq<AnnProcV>,
    pub ok: bool,
    pub errors: Seq<AnnParsingErrorV>,
}

/// `run` after the nodes of `b` have been evaluated.
pub open spec fn absorb(run: Run, b: Batch) -> Run {
    Run { procs: run.procs + b.trees, ok: run.ok && b.ok, errors: run.errors + b.errors }
}

/// The continuation that evaluates what `e` lists.
pub open spec fn k_of(e: EvalV) -> KV {
    match e {
        EvalV::One(c) => KV::EvalDelayed(c),
        EvalV::Named(p) => KV::EvalList { parent: p, next: 0 },
    }
}

/// What evaluating the nodes of a continuation gives.
pub open spec fn k_batch(k: KV) -> Batch {
    match k {
        KV::Consume(_) => nothing(1),
        KV::EvalDelayed(c) => batch_of(eval(c), 1),
        KV::EvalList { parent, next } => eval_named(parent, next),
    }
}

/// Where the machine ends when it starts from `run` with the continuation
/// stack `ks`; `None` where a rule finds fewer operands than it takes.
#[verifier::opaque]
pub open spec fn finish(run: Run, ks: Seq<KV>) -> Option<Run>
    decreases ks.len(),
{
    if ks.len() == 0 {
        Some(run)
    } else {
        match ks.last() {
            KV::Consume(rule) => if run.procs.len() < rule.arity() {
                None
            } else {
                let at = run.procs.len() - rule.arity();
                let args = run.procs.skip(at);
                finish(
                    Run {
                        procs: run.procs.take(at).push(built(rule, args)),
                        ok: run.ok && combine(rule, args) is Some,
                        errors: run.errors,
                    },
                    ks.drop_last(),
                )
            },
            k => finish(absorb(run, k_batch(k)), ks.drop_last()),
        }
    }
}

/// A bound on the steps that the machine takes to empty `ks`.
#[verifier::opaque]
pub open spec fn work(ks: Seq<KV>) -> nat
    decreases ks.len(),
{
    if ks.len() == 0 {
        0
    } else {
        work(ks.drop_last()) + k_batch(ks.last()).work
    }
}

/// The continuations of `evals`, the first of them on top.
pub open spec fn stacked(evals: Seq<EvalV>) -> Seq<KV> {
    Seq::new(evals.len(), |i: int| k_of(evals[evals.len() - 1 - i]))
}

/// Putting the operands of a construct on the continuation stack amounts to
/// evaluating them in order.
pub proof fn lemma_push(run: Run, ks: Seq<KV>, node: CstNode, evals: Seq<EvalV>)
    requires
        descends(node, evals),
    ensures
        finish(run, ks + stacked(evals)) == finish(absorb(run, eval_all(node, evals)), ks),
        work(ks + stacked(evals)) == work(ks) + eval_all(node, evals).work,
    decreases evals.len(),
{
    reveal(finish);
    reveal(work);
    if evals.len() == 0 {
        assert(ks + stacked(evals) =~= ks);
        let b = eval_all(node, evals);
        assert(run.procs + b.trees =~= run.procs);
        assert(run.errors + b.errors =~= run.errors);
    } else {
        let tail = evals.drop_first();
        let k0 = k_of(evals[0]);
        assert(descends(node, tail)) by {
            assert forall|i: int| 0 <= i < tail.len() implies match #[trigger] tail[i] {
                EvalV::One(c) => decreases_to!(node => c),
                EvalV::Named(p) => decreases_to!(node => p),
            } by {
                assert(tail[i] == evals[i + 1]);
            }
        }
        let all = ks + stacked(evals);
        assert(all =~= (ks + stacked(tail)).push(k0));
        assert(all.last() == k0);
        assert(all.drop_last() =~= ks + stacked(tail));
        let b0 = k_batch(k0);
        let run1 = absorb(run, b0);
        lemma_push(run1, ks, node, tail);
        let bt = eval_all(node, tail);
        assert(eval_all(node, evals) == join(b0, bt));
        assert(run1.procs + bt.trees =~= run.procs + (b0.trees + bt.trees));
        assert(run1.errors + bt.errors =~= run.errors + (b0.errors + bt.errors));
        assert(absorb(run1, bt) == absorb(run, join(b0, bt)));
    }
}

/// Leaving a rule and the operands of its construct on the continuation
/// stack amounts to evaluating the construct.
#[verifier::rlimit(40)]
pub proof fn lemma_descend(run: Run, ks: Seq<KV>, node: CstNode)
    requires
        !node.is_bad(),
        plan(node) is Build,
    ensures
        ({
            let rule = plan(node)->Build_rule;
            let evals = plan(node)->Build_evals;
            let errors = plan(node)->Build_errors;
            let entered = Run { procs: run.procs, ok: run.ok, errors: run.errors + errors };
            &&& finish(entered, ks.push(KV::Consume(rule)) + stacked(evals)) == finish(
                run,
                ks.push(KV::EvalDelayed(node)),
            )
            &&& work(ks.push(KV::Consume(rule)) + stacked(evals)) + 1 == work(
                ks.push(KV::EvalDelayed(node)),
            )
        }),
{
    reveal(finish);
    reveal(work);
    let rule = plan(node)->Build_rule;
    let evals = plan(node)->Build_evals;
    let errors = plan(node)->Build_errors;
    let entered = Run { procs: run.procs, ok: run.ok, errors: run.errors + errors };
    lemma_plan_descends(node);
    lemma_plan_balanced(node);
    lemma_eval_all_len(node, evals);
    let below = ks.push(KV::Consume(rule));
    lemma_push(entered, below, node, evals);
    let b = eval_all(node, evals);
    let after = absorb(entered, b);
    assert(below.last() == KV::Consume(rule));
    assert(below.drop_last() =~= ks);
    assert(after.procs.len() == run.procs.len() + rule.arity());
    let at = after.procs.len() - rule.arity();
    assert(after.procs.skip(at) =~= b.trees);
    assert(after.procs.take(at) =~= run.procs);
    let o = eval(node);
    assert(o.tree == built(rule, b.trees));
    let through = ks.push(KV::EvalDelayed(node));
    assert(through.last() == KV::EvalDelayed(node));
    assert(through.drop_last() =~= ks);
    assert(run.procs + seq![o.tree] =~= run.procs.push(o.tree));
    assert(run.errors + errors + b.errors =~= run.errors + (errors + b.errors));
    assert(finish(after, below) == finish(
        Run {
            procs: run.procs.push(built(rule, b.trees)),
            ok: after.ok && combine(rule, b.trees) is Some,
            errors: after.errors,
        },
        ks,
    ));
    assert(finish(run, through) == finish(absorb(run, batch_of(o, 1)), ks));
    assert(absorb(run, batch_of(o, 1)) == Run {
        procs: run.procs.push(built(rule, b.trees)),
        ok: after.ok && combine(rule, b.trees) is Some,
        errors: after.errors,
    });
}

/// A node that only wraps another one is evaluated as that one.
pub proof fn lemma_forward(run: Run, ks: Seq<KV>, node: CstNode)
    requires
        !node.is_bad(),
        plan(node) is Forward,
    ensures
        finish(run, ks.push(KV::EvalDelayed(plan(node)->Forward_to))) == finish(
            run,
            ks.push(KV::EvalDelayed(node)),
        ),
        work(ks.push(KV::EvalDelayed(plan(node)->Forward_to))) + 1 == work(
            ks.push(KV::EvalDelayed(node)),
        ),
{
    reveal(finish);
    reveal(work);
    let to = plan(node)->Forward_to;
    lemma_plan_descends(node);
    let a = ks.push(KV::EvalDelayed(to));
    let b = ks.push(KV::EvalDelayed(node));
    assert(a.last() == KV::EvalDelayed(to));
    assert(b.last() == KV::EvalDelayed(node));
    assert(a.drop_last() =~= ks);
    assert(b.drop_last() =~= ks);
    assert(absorb(run, batch_of(eval(to), 1)) == absorb(run, batch_of(eval(node), 1)));
}

/// A node that is done at once leaves its process on the operand stack.
pub proof fn lemma_done(run: Run, ks: Seq<KV>, node: CstNode)
    ensures
        finish(run, ks.push(KV::EvalDelayed(node))) == finish(
            Run {
                procs: run.procs.push(eval(node).tree),
                ok: run.ok && eval(node).ok,
                errors: run.errors + eval(node).errors,
            },
            ks,
        ),
        work(ks.push(KV::EvalDelayed(node))) == work(ks) + eval(node).work + 1,
{
    reveal(finish);
    reveal(work);
    let b = ks.push(KV::EvalDelayed(node));
    assert(b.last() == KV::EvalDelayed(node));
    assert(b.drop_last() =~= ks);
    assert(run.procs + seq![eval(node).tree] =~= run.procs.push(eval(node).tree));
}

/// With nothing left to do the machine stands still.
pub proof fn lemma_finish_empty(run: Run)
    ensures
        finish(run, Seq::empty()) == Some(run),
        work(Seq::empty()) == 0,
{
    reveal(finish);
    reveal(work);
}

/// Putting a node or a list of nodes on the continuation stack amounts to
/// evaluating it.
pub proof fn lemma_finish_push(run: Run, rest: Seq<KV>, k: KV)
    requires
        !(k is Consume),
    ensures
        finish(run, rest.push(k)) == finish(absorb(run, k_batch(k)), rest),
        work(rest.push(k)) == work(rest) + k_batch(k).work,
{
    reveal(finish);
    reveal(work);
    let all = rest.push(k);
    assert(all.last() == k);
    assert(all.drop_last() =~= rest);
}

/// The next named child of a list and the children after it, taken in turn,
/// are the list from where it stood.
pub proof fn lemma_absorb_step(run: Run, parent: CstNode, next: int, i: int)
    requires
        0 <= next,
        next_named(parent.children@, next) == Some(i),
    ensures
        absorb(
            absorb(run, batch_of(eval(parent.children@[i]), 1)),
            eval_named(parent, i + 1),
        ) == absorb(run, eval_named(parent, next)),
        batch_of(eval(parent.children@[i]), 1).work + eval_named(parent, i + 1).work < eval_named(
            parent,
            next,
        ).work,
{
    lemma_eval_named_skip(parent, next);
    let one = batch_of(eval(parent.children@[i]), 1);
    let more = eval_named(parent, i + 1);
    assert(run.procs + one.trees + more.trees =~= run.procs + (one.trees + more.trees));
    assert(run.errors + one.errors + more.errors =~= run.errors + (one.errors + more.errors));
}

/// Moving on to the next named child of a list of operands.
pub proof fn lemma_list_step(run: Run, rest: Seq<KV>, parent: CstNode, next: int, i: int)
    requires
        0 <= next,
        next_named(parent.children@, next) == Some(i),
    ensures
        finish(
            run,
            rest.push(KV::EvalList { parent, next: i + 1 }).push(
                KV::EvalDelayed(parent.children@[i]),
            ),
        ) == finish(run, rest.push(KV::EvalList { parent, next })),
        work(
            rest.push(KV::EvalList { parent, next: i + 1 }).push(
                KV::EvalDelayed(parent.children@[i]),
            ),
        ) < work(rest.push(KV::EvalList { parent, next })),
{
    let child = parent.children@[i];
    let below = rest.push(KV::EvalList { parent, next: i + 1 });
    lemma_absorb_step(run, parent, next, i);
    lemma_finish_push(run, below, KV::EvalDelayed(child));
    lemma_finish_push(absorb(run, batch_of(eval(child), 1)), rest, KV::EvalList { parent, next: i + 1 });
    lemma_finish_push(run, rest, KV::EvalList { parent, next });
}

/// Leaving a list of operands that is used up.
pub proof fn lemma_list_end(run: Run, rest: Seq<KV>, parent: CstNode, next: int)
    requires
        0 <= next,
        next_named(parent.children@, next) is None,
    ensures
        finish(run, rest) == finish(run, rest.push(KV::EvalList { parent, next })),
        work(rest) < work(rest.push(KV::EvalList { parent, next })),
{
    reveal(finish);
    reveal(work);
    lemma_eval_named_skip(parent, next);
    let before = rest.push(KV::EvalList { parent, next });
    assert(before.last() == KV::EvalList { parent, next });
    assert(before.drop_last() =~= rest);
    assert(run.procs + Seq::<AnnProcV>::empty() =~= run.procs);
    assert(run.errors + Seq::<AnnParsingErrorV>::empty() =~= run.errors);
    assert(absorb(run, nothing(1)) == run);
}

/// Applying a rule.
pub proof fn lemma_consume(run: Run, rest: Seq<KV>, rule: RuleV)
    ensures
        finish(run, rest.push(KV::Consume(rule))) == (if run.procs.len() < rule.arity() {
            None
        } else {
            let at = run.procs.len() - rule.arity();
            let args = run.procs.skip(at);
            finish(
                Run {
                    procs: run.procs.take(at).push(built(rule, args)),
                    ok: run.ok && combine(rule, args) is Some,
                    errors: run.errors,
                },
                rest,
            )
        }),
        work(rest) < work(rest.push(KV::Consume(rule))),
{
    reveal(finish);
    reveal(work);
    let before = rest.push(KV::Consume(rule));
    assert(before.last() == KV::Consume(rule));
    assert(before.drop_last() =~= rest);
}

// ---------------------------------------------------------------------------
// The operand stack
// ---------------------------------------------------------------------------

/// The processes made so far, the latest on top.
pub struct ProcStack<'a> {
    stack: Vec<AnnProc<'a>>,
}

impl<'a> View for ProcStack<'a> {
    type V = Seq<AnnProcV>;

    closed spec fn view(&self) -> Seq<AnnProcV> {
        procs_model(self.stack@)
    }
}

impl<'a> ProcStack<'a> {
    /// An empty stack.
    pub fn new() -> (r: Self)
        ensures
            r@.len() == 0,
    {
        ProcStack { stack: Vec::with_capacity(32) }
    }

    /// How many processes the stack holds.
    pub fn len(&self) -> (r: usize)
        ensures
            r == self@.len(),
    {
        self.stack.len()
    }

    /// Puts a process on top.
    pub fn push(&mut self, proc: &'a Proc<'a>, span: SourceSpan)
        ensures
            final(self)@ == old(self)@.push(AnnProcV { proc: Box::new(proc@), span }),
    {
        let p = AnnProc { proc, span };
        proof {
            assert(procs_model(self.stack@.push(p)) =~= procs_model(self.stack@).push(p@));
        }
        self.stack.push(p);
    }

    /// The one process that is left when the machine is done.
    pub fn to_proc(self) -> (r: AnnProc<'a>)
        requires
            self@.len() == 1,
        ensures
            r@ == self@[0],
    {
        self.stack[0]
    }

    /// The process on top, if there is one.
    pub fn to_proc_partial(&self) -> (r: Option<AnnProc<'a>>)
        ensures
            match r {
                Some(p) => self@.len() > 0 && p@ == self@.last(),
                None => self@.len() == 0,
            },
    {
        let n = self.stack.len();
        if n == 0 {
            None
        } else {
            Some(self.stack[n - 1])
        }
    }

    /// Takes the operands of `rule` off the top and puts what the rule builds
    /// in their place: the construct, or the placeholder where an operand is
    /// not of the shape that the rule needs. Says which of the two it was.
    pub fn replace_top_slice(&mut self, rule: Rule<'a>, ast_builder: &'a ASTBuilder<'a>) -> (ok: bool)
        requires
            old(self)@.len() >= rule@.arity(),
        ensures
            ({
                let at = old(self)@.len() - rule@.arity();
                &&& final(self)@ == old(self)@.take(at).push(built(rule@, old(self)@.skip(at)))
                &&& ok == combine(rule@, old(self)@.skip(at)) is Some
            }),
    {
        let top = self.stack.len();
        let n = rule.arity();
        let at = top - n;
        let span = rule.span();
        let ghost before = procs_model(self.stack@);
        let ghost r = rule@;
        proof {
            lemma_model_subrange(self.stack@, at as int, top as int);
            lemma_model_subrange(self.stack@, 0, at as int);
        }
        let made = build(rule, slice_subrange(self.stack.as_slice(), at, top), ast_builder);
        let (proc, ok) = match made {
            Some(p) => (p, true),
            None => (ast_builder.bad(), false),
        };
        self.stack.truncate(at);
        let p = AnnProc { proc, span };
        proof {
            assert(self.stack@ =~= old(self).stack@.subrange(0, at as int));
            assert(procs_model(self.stack@.push(p)) =~= before.take(at as int).push(p@));
            assert(p@ == built(r, before.skip(at as int)));
        }
        self.stack.push(p);
        ok
    }
}

// ---------------------------------------------------------------------------
// The driver
// ---------------------------------------------------------------------------

/// What the machine does next.
pub enum Step<'a> {
    /// Nothing is left to do.
    Done,
    /// This node is to be evaluated.
    Continue(&'a CstNode),
}

/// Puts the operands of a construct on the continuation stack, the first of
/// them on top.
fn push_pending<'ast>(cont_stack: &mut Vec<K<'ast>>, pending: &Vec<Pending<'ast>>)
    ensures
        ks_model(final(cont_stack)@) == ks_model(old(cont_stack)@) + stacked(pending_model(pending@)),
{
    let ghost base = ks_model(cont_stack@);
    let ghost evals = pending_model(pending@);
    let n = pending.len();
    let mut j: usize = n;
    proof {
        assert(base + stacked(evals).take(0) =~= base);
    }
    while j > 0
        invariant
            j <= n,
            n == pending@.len(),
            evals == pending_model(pending@),
            ks_model(cont_stack@) == base + stacked(evals).take(n - j),
        decreases j,
    {
        j -= 1;
        let k = match pending[j] {
            Pending::One(c) => K::EvalDelayed(c),
            Pending::Named(p) => K::EvalList { parent: p, next: 0 },
        };
        proof {
            assert(stacked(evals).len() == n);
            assert(k.model() == stacked(evals)[n - 1 - j]);
            assert(stacked(evals).take(n - j) =~= stacked(evals).take(n - j - 1).push(
                stacked(evals)[n - j - 1],
            ));
            assert(ks_model(cont_stack@.push(k)) =~= ks_model(cont_stack@).push(k.model()));
            assert(ks_model(cont_stack@).push(k.model()) =~= base + stacked(evals).take(n - j));
        }
        cont_stack.push(k);
    }
    proof {
        assert(stacked(evals).take(n as int) =~= stacked(evals));
    }
}

/// Works the continuation stack off until a node is to be evaluated or
/// nothing is left.
#[verifier::rlimit(40)]
fn apply_cont<'ast>(
    cont_stack: &mut Vec<K<'ast>>,
    proc_stack: &mut ProcStack<'ast>,
    ok: &mut bool,
    ast_builder: &'ast ASTBuilder<'ast>,
    Ghost(errors): Ghost<Seq<AnnParsingErrorV>>,
    Ghost(goal): Ghost<Run>,
) -> (step: Step<'ast>)
    requires
        finish(
            Run { procs: old(proc_stack)@, ok: *old(ok), errors },
            ks_model(old(cont_stack)@),
        ) == Some(goal),
    ensures
        match step {
            Step::Done => final(cont_stack)@.len() == 0 && (Run {
                procs: final(proc_stack)@,
                ok: *final(ok),
                errors,
            }) == goal,
            Step::Continue(node) => finish(
                Run { procs: final(proc_stack)@, ok: *final(ok), errors },
                ks_model(final(cont_stack)@).push(KV::EvalDelayed(*node)),
            ) == Some(goal) && work(ks_model(final(cont_stack)@).push(KV::EvalDelayed(*node)))
                <= work(ks_model(old(cont_stack)@)),
        },
{
    loop
        invariant
            finish(Run { procs: proc_stack@, ok: *ok, errors }, ks_model(cont_stack@)) == Some(goal),
            work(ks_model(cont_stack@)) <= work(ks_model(old(cont_stack)@)),
        decreases work(ks_model(cont_stack@)),
    {
        let ghost all = ks_model(cont_stack@);
        let ghost run = Run { procs: proc_stack@, ok: *ok, errors };
        let k = match cont_stack.pop() {
            Some(k) => k,
            None => {
                proof {
                    lemma_finish_empty(run);
                    assert(all =~= Seq::<KV>::empty());
                }
                return Step::Done;
            },
        };
        let ghost rest = ks_model(cont_stack@);
        proof {
            assert(all =~= rest.push(k.model()));
        }
        match k {
            K::EvalDelayed(node) => {
                return Step::Continue(node);
            },
            K::EvalList { parent, next } => {
                match parent.next_named_child(next) {
                    Some(i) => {
                        proof {
                            assert(parent.children@.len() == parent.children.len());
                        }
                        let child = &parent.children[i];
                        let again = K::EvalList { parent, next: i + 1 };
                        proof {
                            lemma_list_step(run, rest, *parent, next as int, i as int);
                            assert(ks_model(cont_stack@.push(again)) =~= rest.push(again.model()));
                        }
                        cont_stack.push(again);
                        return Step::Continue(child);
                    },
                    None => {
                        proof {
                            lemma_list_end(run, rest, *parent, next as int);
                        }
                    },
                }
            },
            K::Consume(rule) => {
                proof {
                    lemma_consume(run, rest, rule@);
                }
                let fine = proc_stack.replace_top_slice(rule, ast_builder);
                *ok = *ok && fine;
            },
        }
    }
}

/// Every error of a parse: the semantic errors that the driver records while
/// it evaluates, then the syntax errors of the tree. `under_error` says
/// whether the parent of `node` is an error node.
pub open spec fn errors_of(node: CstNode, under_error: bool) -> Seq<AnnParsingErrorV> {
    eval(node).errors + scan(node, under_error).errors
}

/// Every error of the parse of a tree whose root is `node`.
pub open spec fn all_errors(node: CstNode) -> Seq<AnnParsingErrorV> {
    errors_of(node, false)
}

/// Evaluates the syntax tree below `start_node` and appends to `errors`
/// whatever is wrong with it. Gives nothing where some construct of the tree
/// has an operand that is not of the shape that the construct needs; `errors`
/// then holds no more than before.
#[verifier::rlimit(40)]
pub fn drive<'ast>(
    start_node: &'ast CstNode,
    under_error: bool,
    ast_builder: &'ast ASTBuilder<'ast>,
    errors: &mut Vec<AnnParsingError>,
) -> (r: Option<AnnProc<'ast>>)
    ensures
        r is None <==> !eval(*start_node).ok,
        r matches Some(tree) ==> tree@ == eval(*start_node).tree && errors_model(final(errors)@)
            == errors_model(old(errors)@) + errors_of(*start_node, under_error),
        r is None ==> final(errors)@ == old(errors)@,
{
    let mut found: Vec<AnnParsingError> = Vec::new();
    let mut proc_stack = ProcStack::new();
    let mut cont_stack: Vec<K<'ast>> = Vec::with_capacity(32);
    let mut ok = true;
    let mut node = start_node;
    let ghost target = eval(*start_node);
    let ghost goal = Run { procs: seq![target.tree], ok: target.ok, errors: target.errors };
    proof {
        let start = Run { procs: proc_stack@, ok, errors: errors_model(found@) };
        lemma_done(start, ks_model(cont_stack@), *start_node);
        assert(ks_model(cont_stack@) =~= Seq::<KV>::empty());
        assert(start.procs.push(target.tree) =~= goal.procs);
        assert(start.errors + target.errors =~= goal.errors);
        let pushed = Run {
            procs: start.procs.push(target.tree),
            ok: start.ok && target.ok,
            errors: start.errors + target.errors,
        };
        assert(pushed == goal);
        lemma_finish_empty(goal);
    }
    loop
        invariant
            errors@ == old(errors)@,
            goal == (Run {
                procs: seq![eval(*start_node).tree],
                ok: eval(*start_node).ok,
                errors: eval(*start_node).errors,
            }),
            finish(
                Run { procs: proc_stack@, ok, errors: errors_model(found@) },
                ks_model(cont_stack@).push(KV::EvalDelayed(*node)),
            ) == Some(goal),
        decreases work(ks_model(cont_stack@).push(KV::EvalDelayed(*node))),
    {
        let ghost run = Run { procs: proc_stack@, ok, errors: errors_model(found@) };
        let ghost ks = ks_model(cont_stack@);
        proof {
            lemma_done(run, ks, *node);
        }
        if node.error || node.missing {
            proc_stack.push(ast_builder.bad(), node.span);
            proof {
                assert(run.errors + Seq::<AnnParsingErrorV>::empty() =~= run.errors);
            }
        } else {
            match classify(node, ast_builder) {
                Classified::Done { proc, ok: fine, out_of_range } => {
                    if out_of_range {
                        let e = AnnParsingError {
                            error: ParsingError::NumberOutOfRange,
                            span: node.span,
                        };
                        proof {
                            assert(errors_model(found@.push(e)) =~= run.errors + seq![e@]);
                        }
                        found.push(e);
                    } else {
                        proof {
                            assert(run.errors + Seq::<AnnParsingErrorV>::empty() =~= run.errors);
                        }
                    }
                    proc_stack.push(proc, node.span);
                    ok = ok && fine;
                },
                Classified::Forward(to) => {
                    proof {
                        lemma_forward(run, ks, *node);
                    }
                    node = to;
                    continue ;
                },
                Classified::Build { rule, pending, errors: mut own } => {
                    proof {
                        lemma_descend(run, ks, *node);
                        assert(errors_model(found@ + own@) =~= run.errors + errors_model(own@));
                        assert(ks_model(cont_stack@.push(K::Consume(rule))) =~= ks.push(
                            KV::Consume(rule@),
                        ));
                    }
                    found.append(&mut own);
                    cont_stack.push(K::Consume(rule));
                    push_pending(&mut cont_stack, &pending);
                },
            }
        }
        let step = apply_cont(
            &mut cont_stack,
            &mut proc_stack,
            &mut ok,
            ast_builder,
            Ghost(errors_model(found@)),
            Ghost(goal),
        );
        match step {
            Step::Done => {
                if !ok {
                    return None;
                }
                let ghost before = errors_model(errors@);
                proof {
                    assert(errors_model(errors@ + found@) =~= before + errors_model(found@));
                }
                errors.append(&mut found);
                query_errors(start_node, under_error, errors);
                proof {
                    let semantic = eval(*start_node).errors;
                    let syntax = scan(*start_node, under_error).errors;
                    assert(before + semantic + syntax =~= before + (semantic + syntax));
                }
                return Some(proc_stack.to_proc());
            },
            Step::Continue(next) => {
                node = next;
            },
        }
    }
}

/// Whether `r` is what the parse of the tree below `node` gives.
///
/// `None` stands for a tree in which some construct has an operand that is
/// not of the shape that the construct needs. Else the parse gives the tree
/// if nothing is wrong, and else a failure that holds the tree, with
/// placeholders where something could not be read, together with every error
/// that was found, of which there is at least one.
pub open spec fn parse_result(node: CstNode, r: Option<Result<AnnProc, ParsingFailure>>) -> bool {
    match r {
        None => !eval(node).ok,
        Some(Ok(tree)) => eval(node).ok && tree@ == eval(node).tree && all_errors(node).len() == 0,
        Some(Err(failure)) => {
            &&& eval(node).ok
            &&& failure.partial_tree matches Some(tree) && tree@ == eval(node).tree
            &&& errors_model(listed_errors(failure.errors)) == all_errors(node)
            &&& listed_errors(failure.errors).len() > 0
        },
    }
}

/// Evaluates the syntax tree below `start_node`, whatever its shape.
pub fn try_node_to_ast<'ast>(start_node: &'ast CstNode, ast_builder: &'ast ASTBuilder<'ast>) -> (r:
    Option<Result<AnnProc<'ast>, ParsingFailure<'ast>>>)
    ensures
        parse_result(*start_node, r),
{
    let mut errors: Vec<AnnParsingError> = Vec::new();
    match drive(start_node, false, ast_builder, &mut errors) {
        None => None,
        Some(tree) => {
            proof {
                assert(errors_model(Seq::<AnnParsingError>::empty()) + all_errors(*start_node)
                    =~= all_errors(*start_node));
            }
            match nonempty_errors(errors) {
                Some(list) => Some(Err(ParsingFailure { partial_tree: Some(tree), errors: list })),
                None => Some(Ok(tree)),
            }
        },
    }
}

/// Evaluates the syntax tree below `start_node`, every construct of which
/// has operands of the shape it needs.
///
/// Gives the tree if nothing is wrong with the program, and else a failure
/// that holds the tree, with placeholders where something could not be read,
/// together with every error that was found; a failure never comes without
/// an error.
pub fn node_to_ast<'ast>(start_node: &'ast CstNode, ast_builder: &'ast ASTBuilder<'ast>) -> (r:
    Result<AnnProc<'ast>, ParsingFailure<'ast>>)
    requires
        eval(*start_node).ok,
    ensures
        parse_result(*start_node, Some(r)),
        r is Ok <==> all_errors(*start_node).len() == 0,
{
    match try_node_to_ast(start_node, ast_builder) {
        Some(r) => r,
        None => Ok(AnnProc { proc: ast_builder.bad(), span: start_node.span }),
    }
}

// ---------------------------------------------------------------------------
// Laws
// ---------------------------------------------------------------------------

/// Determinism: two parses of one tree agree. Both fail for want of shape or
/// neither does; their trees are the same, and so are their errors, one for
/// one.
pub proof fn lemma_parse_deterministic(
    node: CstNode,
    first: Option<Result<AnnProc, ParsingFailure>>,
    second: Option<Result<AnnProc, ParsingFailure>>,
)
    requires
        parse_result(node, first),
        parse_result(node, second),
    ensures
        first is None <==> second is None,
        first matches Some(Ok(a)) ==> second matches Some(Ok(b)) && a@ == b@,
        first matches Some(Err(f)) ==> second matches Some(Err(g)) && f.partial_tree->0@
            == g.partial_tree->0@ && errors_model(listed_errors(f.errors)) == errors_model(
            listed_errors(g.errors),
        ),
{
    if let Some(Err(f)) = first {
        assert(listed_errors(f.errors).len() == errors_model(listed_errors(f.errors)).len());
    }
    if let Some(Err(g)) = second {
        assert(listed_errors(g.errors).len() == errors_model(listed_errors(g.errors)).len());
    }
}

/// A failure never comes without an error.
pub proof fn lemma_failure_has_errors(node: CstNode, failure: ParsingFailure)
    requires
        parse_result(node, Some(Err(failure))),
    ensures
        listed_errors(failure.errors).len() > 0,
        all_errors(node).len() > 0,
{
    assert(listed_errors(failure.errors).len() == errors_model(listed_errors(failure.errors)).len());
}

/// The driver never finds fewer operands than a rule takes: from the start
/// of a parse the machine runs to its end, with the value of the tree
/// as the one process on its operand stack.
pub proof fn lemma_never_underflows(node: CstNode)
    ensures
        finish(
            Run { procs: Seq::empty(), ok: true, errors: Seq::empty() },
            seq![KV::EvalDelayed(node)],
        ) == Some(Run { procs: seq![eval(node).tree], ok: eval(node).ok, errors: eval(node).errors }),
{
    let start = Run { procs: Seq::empty(), ok: true, errors: Seq::empty() };
    lemma_done(start, Seq::empty(), node);
    assert(Seq::<KV>::empty().push(KV::EvalDelayed(node)) =~= seq![KV::EvalDelayed(node)]);
    let end = Run {
        procs: start.procs.push(eval(node).tree),
        ok: start.ok && eval(node).ok,
        errors: start.errors + eval(node).errors,
    };
    assert(end.procs =~= seq![eval(node).tree]);
    assert(end.errors =~= eval(node).errors);
    lemma_finish_empty(end);
}

} // verus!
