//! The allocator of one parse: every process node of a tree lives in its
//! arena, and the leaves that occur over and over are kept once.
use vstd::prelude::*;
use vstd::slice::slice_to_vec;
use crate::ast::{
    AnnName, AnnProc, AnnProcV, BinaryExpOp, BundleType, Case, CaseV, Collection,
    CollectionV, Id, LetBinding, LetBindingV, NameDecl, Names, Proc, ProcV, Receipt, ReceiptV,
    SendType, SimpleType, SyncSendCont, SyncSendContV, UnaryExpOp, Var, VarRefKind, VarV,
    decls_model, procs_model,
};
use crate::text::{trim_matches, trimmed};

verus! {

/// `typed_arena::Arena`, an allocator that keeps every value it is given
/// until it is dropped itself.
#[verifier::external_type_specification]
#[verifier::external_body]
#[verifier::reject_recursive_types(T)]
pub struct ExArena<T>(typed_arena::Arena<T>);

/// Makes an arena with `typed_arena::Arena::with_capacity`: room for at
/// least `n` values before it has to grow.
#[verifier::external_body]
fn arena_with_capacity<'ast>(n: usize) -> (r: typed_arena::Arena<Proc<'ast>>) {
    typed_arena::Arena::with_capacity(n)
}

/// Moves `value` into the arena with `typed_arena::Arena::alloc`. The arena
/// hands back a reference to the stored value, which stays where it is for as
/// long as the arena lives.
#[verifier::external_body]
fn arena_alloc<'a, 'ast>(arena: &'a typed_arena::Arena<Proc<'ast>>, value: Proc<'ast>) -> (r:
    &'a Proc<'ast>)
    ensures
        *r == value,
{
    arena.alloc(value)
}

/// The pairs that a flat run of keys and values holds: first with second,
/// third with fourth, and so on; an odd last element is left out.
pub open spec fn paired(s: Seq<AnnProcV>) -> Seq<(AnnProcV, AnnProcV)> {
    Seq::new((s.len() / 2) as nat, |i: int| (s[2 * i], s[2 * i + 1]))
}

/// The cases that a flat run of patterns and bodies holds.
pub open spec fn cases_of(s: Seq<AnnProcV>) -> Seq<CaseV> {
    Seq::new((s.len() / 2) as nat, |i: int| CaseV { pattern: s[2 * i], proc: s[2 * i + 1] })
}

/// The twins of a run of receipts.
pub open spec fn receipts_model(s: Seq<Receipt>) -> Seq<ReceiptV> {
    s.map_values(|r: Receipt| r.model())
}

/// The twins of a run of bindings.
pub open spec fn bindings_model(s: Seq<LetBinding>) -> Seq<LetBindingV> {
    s.map_values(|b: LetBinding| b.model())
}

/// The list without elements and without remainder.
pub open spec fn empty_list() -> ProcV {
    ProcV::Collection(CollectionV::List { elements: Seq::empty(), remainder: None })
}

pub struct ASTBuilder<'ast> {
    arena: typed_arena::Arena<Proc<'ast>>,
    capacity: usize,
    nil: Proc<'ast>,
    truth: Proc<'ast>,
    falsity: Proc<'ast>,
    wild: Proc<'ast>,
    unit: Proc<'ast>,
    bad: Proc<'ast>,
    empty_list: Proc<'ast>,
    zero: Proc<'ast>,
    one: Proc<'ast>,
}

impl<'ast> ASTBuilder<'ast> {
    #[verifier::type_invariant]
    spec fn constants_hold(&self) -> bool {
        &&& self.nil@ == ProcV::Nil
        &&& self.truth@ == ProcV::BoolLiteral(true)
        &&& self.falsity@ == ProcV::BoolLiteral(false)
        &&& self.wild@ == ProcV::ProcVar(VarV::Wildcard)
        &&& self.unit@ == ProcV::Unit
        &&& self.bad@ == ProcV::Bad
        &&& self.empty_list@ == empty_list()
        &&& self.zero@ == ProcV::LongLiteral(0)
        &&& self.one@ == ProcV::LongLiteral(1)
    }

    /// The number of nodes that the builder was made for.
    pub closed spec fn capacity_spec(&self) -> usize {
        self.capacity
    }

    /// The number of nodes that the builder was made for.
    pub fn capacity(&self) -> (r: usize)
        ensures
            r == self.capacity_spec(),
    {
        self.capacity
    }

    /// A builder with room for 64 nodes.
    pub fn new() -> (r: Self)
        ensures
            r.capacity_spec() == 64,
    {
        Self::with_capacity(64)
    }

    /// A builder with room for `capacity` nodes before its arena grows.
    pub fn with_capacity(capacity: usize) -> (r: Self)
        ensures
            r.capacity_spec() == capacity,
    {
        let empty = Proc::Collection(Collection::List { elements: Vec::new(), remainder: None });
        proof {
            reveal_with_fuel(Proc::model, 3);
            assert(match empty@ {
                ProcV::Collection(CollectionV::List { elements, remainder }) => elements
                    =~= Seq::empty() && remainder is None,
                _ => false,
            });
        }
        ASTBuilder {
            arena: arena_with_capacity(capacity),
            capacity,
            nil: Proc::Nil,
            truth: Proc::BoolLiteral(true),
            falsity: Proc::BoolLiteral(false),
            wild: Proc::ProcVar(Var::Wildcard),
            unit: Proc::Unit,
            bad: Proc::Bad,
            empty_list: empty,
            zero: Proc::LongLiteral(0),
            one: Proc::LongLiteral(1),
        }
    }

    /// The shared `Nil`.
    pub fn nil(&'ast self) -> (r: &'ast Proc<'ast>)
        ensures
            r@ == ProcV::Nil,
    {
        proof {
            use_type_invariant(self);
        }
        &self.nil
    }

    /// The shared literal `true` or `false`.
    pub fn bool_literal(&'ast self, value: bool) -> (r: &'ast Proc<'ast>)
        ensures
            r@ == ProcV::BoolLiteral(value),
    {
        proof {
            use_type_invariant(self);
        }
        if value {
            &self.truth
        } else {
            &self.falsity
        }
    }

    /// The shared wildcard.
    pub fn wildcard(&'ast self) -> (r: &'ast Proc<'ast>)
        ensures
            r@ == ProcV::ProcVar(VarV::Wildcard),
    {
        proof {
            use_type_invariant(self);
        }
        &self.wild
    }

    /// The shared unit value.
    pub fn unit(&'ast self) -> (r: &'ast Proc<'ast>)
        ensures
            r@ == ProcV::Unit,
    {
        proof {
            use_type_invariant(self);
        }
        &self.unit
    }

    /// The shared placeholder for what could not be read.
    pub fn bad(&'ast self) -> (r: &'ast Proc<'ast>)
        ensures
            r@ == ProcV::Bad,
    {
        proof {
            use_type_invariant(self);
        }
        &self.bad
    }

    /// A string literal, kept without its surrounding double quotes.
    pub fn alloc_string_literal(&'ast self, value: &'ast str) -> (r: &'ast Proc<'ast>)
        ensures
            r@ == ProcV::StringLiteral(trimmed(value@, '"')),
    {
        arena_alloc(&self.arena, Proc::StringLiteral(trim_matches(value, '"')))
    }

    /// An integer literal; zero and one are shared.
    pub fn alloc_long_literal(&'ast self, value: i64) -> (r: &'ast Proc<'ast>)
        ensures
            r@ == ProcV::LongLiteral(value),
    {
        proof {
            use_type_invariant(self);
        }
        if value == 0 {
            &self.zero
        } else if value == 1 {
            &self.one
        } else {
            arena_alloc(&self.arena, Proc::LongLiteral(value))
        }
    }

    /// A URI literal, kept without its surrounding backticks.
    pub fn alloc_uri_literal(&'ast self, value: &'ast str) -> (r: &'ast Proc<'ast>)
        ensures
            r@ == ProcV::UriLiteral(trimmed(value@, '`')),
    {
        arena_alloc(&self.arena, Proc::UriLiteral(crate::ast::Uri::from_literal(value)))
    }

    pub fn alloc_simple_type(&'ast self, value: SimpleType) -> (r: &'ast Proc<'ast>)
        ensures
            r@ == ProcV::SimpleType(value),
    {
        arena_alloc(&self.arena, Proc::SimpleType(value))
    }

    /// A list; the empty list is shared.
    pub fn alloc_list(&'ast self, procs: &[AnnProc<'ast>]) -> (r: &'ast Proc<'ast>)
        ensures
            r@ == ProcV::Collection(
                CollectionV::List { elements: procs_model(procs@), remainder: None },
            ),
    {
        proof {
            use_type_invariant(self);
        }
        if procs.len() == 0 {
            assert(procs_model(procs@) =~= Seq::empty());
            return &self.empty_list;
        }
        let value = Proc::Collection(
            Collection::List { elements: slice_to_vec(procs), remainder: None },
        );
        proof {
            reveal_with_fuel(Proc::model, 3);
            assert(match value@ {
                ProcV::Collection(CollectionV::List { elements, remainder }) => elements
                    =~= procs_model(procs@) && remainder is None,
                _ => false,
            });
        }
        arena_alloc(&self.arena, value)
    }

    pub fn alloc_list_with_remainder(
        &'ast self,
        procs: &[AnnProc<'ast>],
        remainder: Var<'ast>,
    ) -> (r: &'ast Proc<'ast>)
        ensures
            r@ == ProcV::Collection(
                CollectionV::List { elements: procs_model(procs@), remainder: Some(remainder@) },
            ),
    {
        let value = Proc::Collection(
            Collection::List { elements: slice_to_vec(procs), remainder: Some(remainder) },
        );
        proof {
            reveal_with_fuel(Proc::model, 3);
            assert(match value@ {
                ProcV::Collection(CollectionV::List { elements, remainder: rem }) => elements
                    =~= procs_model(procs@) && rem == Some(remainder@),
                _ => false,
            });
        }
        arena_alloc(&self.arena, value)
    }

    pub fn alloc_set(&'ast self, procs: &[AnnProc<'ast>]) -> (r: &'ast Proc<'ast>)
        ensures
            r@ == ProcV::Collection(
                CollectionV::SetOf { elements: procs_model(procs@), remainder: None },
            ),
    {
        let value = Proc::Collection(
            Collection::SetOf { elements: slice_to_vec(procs), remainder: None },
        );
        proof {
            reveal_with_fuel(Proc::model, 3);
            assert(match value@ {
                ProcV::Collection(CollectionV::SetOf { elements, remainder }) => elements
                    =~= procs_model(procs@) && remainder is None,
                _ => false,
            });
        }
        arena_alloc(&self.arena, value)
    }

    pub fn alloc_set_with_remainder(
        &'ast self,
        procs: &[AnnProc<'ast>],
        remainder: Var<'ast>,
    ) -> (r: &'ast Proc<'ast>)
        ensures
            r@ == ProcV::Collection(
                CollectionV::SetOf { elements: procs_model(procs@), remainder: Some(remainder@) },
            ),
    {
        let value = Proc::Collection(
            Collection::SetOf { elements: slice_to_vec(procs), remainder: Some(remainder) },
        );
        proof {
            reveal_with_fuel(Proc::model, 3);
            assert(match value@ {
                ProcV::Collection(CollectionV::SetOf { elements, remainder: rem }) => elements
                    =~= procs_model(procs@) && rem == Some(remainder@),
                _ => false,
            });
        }
        arena_alloc(&self.arena, value)
    }

    pub fn alloc_tuple(&'ast self, procs: &[AnnProc<'ast>]) -> (r: &'ast Proc<'ast>)
        ensures
            r@ == ProcV::Collection(CollectionV::Tuple(procs_model(procs@))),
    {
        let value = Proc::Collection(Collection::Tuple(slice_to_vec(procs)));
        proof {
            reveal_with_fuel(Proc::model, 3);
            assert(match value@ {
                ProcV::Collection(CollectionV::Tuple(elements)) => elements =~= procs_model(
                    procs@,
                ),
                _ => false,
            });
        }
        arena_alloc(&self.arena, value)
    }

    /// Pairs up a flat run of keys and values.
    pub fn to_key_value(slice: &[AnnProc<'ast>]) -> (r: Vec<(AnnProc<'ast>, AnnProc<'ast>)>)
        ensures
            r@.len() == slice@.len() / 2,
            forall|i: int|
                0 <= i < r@.len() ==> (#[trigger] r@[i]) == (slice@[2 * i], slice@[2 * i + 1]),
    {
        let mut out: Vec<(AnnProc<'ast>, AnnProc<'ast>)> = Vec::new();
        let n = slice.len() / 2;
        let mut i: usize = 0;
        while i < n
            invariant
                i <= n,
                2 * n <= slice@.len() <= usize::MAX,
                n == slice@.len() / 2,
                out@.len() == i,
                forall|k: int|
                    0 <= k < out@.len() ==> (#[trigger] out@[k]) == (slice@[2 * k], slice@[2 * k + 1]),
            decreases n - i,
        {
            out.push((slice[2 * i], slice[2 * i + 1]));
            i += 1;
        }
        out
    }

    pub fn alloc_map(&'ast self, pairs: &[AnnProc<'ast>]) -> (r: &'ast Proc<'ast>)
        ensures
            r@ == ProcV::Collection(
                CollectionV::MapOf { elements: paired(procs_model(pairs@)), remainder: None },
            ),
    {
        let value = Proc::Collection(
            Collection::MapOf { elements: Self::to_key_value(pairs), remainder: None },
        );
        proof {
            reveal_with_fuel(Proc::model, 3);
            assert(match value@ {
                ProcV::Collection(CollectionV::MapOf { elements, remainder }) => elements
                    =~= paired(procs_model(pairs@)) && remainder is None,
                _ => false,
            });
        }
        arena_alloc(&self.arena, value)
    }

    pub fn alloc_map_with_remainder(
        &'ast self,
        pairs: &[AnnProc<'ast>],
        remainder: Var<'ast>,
    ) -> (r: &'ast Proc<'ast>)
        ensures
            r@ == ProcV::Collection(
                CollectionV::MapOf {
                    elements: paired(procs_model(pairs@)),
                    remainder: Some(remainder@),
                },
            ),
    {
        let value = Proc::Collection(
            Collection::MapOf { elements: Self::to_key_value(pairs), remainder: Some(remainder) },
        );
        proof {
            reveal_with_fuel(Proc::model, 3);
            assert(match value@ {
                ProcV::Collection(CollectionV::MapOf { elements, remainder: rem }) => elements
                    =~= paired(procs_model(pairs@)) && rem == Some(remainder@),
                _ => false,
            });
        }
        arena_alloc(&self.arena, value)
    }

    pub fn alloc_var(&'ast self, id: Id<'ast>) -> (r: &'ast Proc<'ast>)
        ensures
            r@ == ProcV::ProcVar(VarV::Id(id.model())),
    {
        arena_alloc(&self.arena, Proc::ProcVar(Var::Id(id)))
    }

    pub fn alloc_par(&'ast self, left: AnnProc<'ast>, right: AnnProc<'ast>) -> (r: &'ast Proc<'ast>)
        ensures
            r@ == (ProcV::Par { left: left@, right: right@ }),
    {
        arena_alloc(&self.arena, Proc::Par { left, right })
    }

    pub fn alloc_if_then(&'ast self, condition: AnnProc<'ast>, if_true: AnnProc<'ast>) -> (r:
        &'ast Proc<'ast>)
        ensures
            r@ == (ProcV::IfThenElse { condition: condition@, if_true: if_true@, if_false: None }),
    {
        arena_alloc(&self.arena, Proc::IfThenElse { condition, if_true, if_false: None })
    }

    pub fn alloc_if_then_else(
        &'ast self,
        condition: AnnProc<'ast>,
        if_true: AnnProc<'ast>,
        if_false: AnnProc<'ast>,
    ) -> (r: &'ast Proc<'ast>)
        ensures
            r@ == (ProcV::IfThenElse {
                condition: condition@,
                if_true: if_true@,
                if_false: Some(if_false@),
            }),
    {
        arena_alloc(&self.arena, Proc::IfThenElse { condition, if_true, if_false: Some(if_false) })
    }

    pub fn alloc_send(
        &'ast self,
        send_type: SendType,
        channel: AnnName<'ast>,
        inputs: &[AnnProc<'ast>],
    ) -> (r: &'ast Proc<'ast>)
        ensures
            r@ == (ProcV::Send { channel: channel@, send_type, inputs: procs_model(inputs@) }),
    {
        let value = Proc::Send { channel, send_type, inputs: slice_to_vec(inputs) };
        proof {
            reveal_with_fuel(Proc::model, 3);
            assert(match value@ {
                ProcV::Send { channel: c, send_type: t, inputs: i } => i =~= procs_model(inputs@)
                    && c == channel@ && t == send_type,
                _ => false,
            });
        }
        arena_alloc(&self.arena, value)
    }

    pub fn alloc_for(&'ast self, receipts: Vec<Receipt<'ast>>, proc: AnnProc<'ast>) -> (r:
        &'ast Proc<'ast>)
        ensures
            r@ == (ProcV::ForComprehension { receipts: receipts_model(receipts@), proc: proc@ }),
    {
        let ghost want = receipts_model(receipts@);
        let value = Proc::ForComprehension { receipts, proc };
        proof {
            reveal_with_fuel(Proc::model, 3);
            assert(match value@ {
                ProcV::ForComprehension { receipts: rs, proc: p } => rs =~= want && p == proc@,
                _ => false,
            });
        }
        arena_alloc(&self.arena, value)
    }

    pub fn alloc_match(&'ast self, expression: AnnProc<'ast>, cases: &[AnnProc<'ast>]) -> (r:
        &'ast Proc<'ast>)
        ensures
            r@ == (ProcV::Match { expression: expression@, cases: cases_of(procs_model(cases@)) }),
    {
        let mut out: Vec<Case<'ast>> = Vec::new();
        let n = cases.len() / 2;
        let mut i: usize = 0;
        while i < n
            invariant
                i <= n,
                2 * n <= cases@.len() <= usize::MAX,
                n == cases@.len() / 2,
                out@.len() == i,
                forall|k: int|
                    0 <= k < out@.len() ==> (#[trigger] out@[k]) == (Case {
                        pattern: cases@[2 * k],
                        proc: cases@[2 * k + 1],
                    }),
            decreases n - i,
        {
            out.push(Case { pattern: cases[2 * i], proc: cases[2 * i + 1] });
            i += 1;
        }
        let value = Proc::Match { expression, cases: out };
        proof {
            reveal_with_fuel(Proc::model, 3);
            assert(match value@ {
                ProcV::Match { expression: e, cases: cs } => cs =~= cases_of(procs_model(cases@))
                    && e == expression@,
                _ => false,
            });
        }
        arena_alloc(&self.arena, value)
    }

    pub fn alloc_bundle(&'ast self, bundle_type: BundleType, proc: AnnProc<'ast>) -> (r:
        &'ast Proc<'ast>)
        ensures
            r@ == (ProcV::Bundle { bundle_type, proc: proc@ }),
    {
        arena_alloc(&self.arena, Proc::Bundle { bundle_type, proc })
    }

    pub fn alloc_let(
        &'ast self,
        bindings: Vec<LetBinding<'ast>>,
        body: AnnProc<'ast>,
        concurrent: bool,
    ) -> (r: &'ast Proc<'ast>)
        ensures
            r@ == (ProcV::Let { bindings: bindings_model(bindings@), body: body@, concurrent }),
    {
        let ghost want = bindings_model(bindings@);
        let value = Proc::Let { bindings, body, concurrent };
        proof {
            reveal_with_fuel(Proc::model, 3);
            assert(match value@ {
                ProcV::Let { bindings: bs, body: b, concurrent: c } => bs =~= want && b == body@
                    && c == concurrent,
                _ => false,
            });
        }
        arena_alloc(&self.arena, value)
    }

    pub fn alloc_new(&'ast self, proc: AnnProc<'ast>, decls: Vec<NameDecl<'ast>>) -> (r:
        &'ast Proc<'ast>)
        ensures
            r@ == (ProcV::New { decls: decls_model(decls@), proc: proc@ }),
    {
        arena_alloc(&self.arena, Proc::New { decls, proc })
    }

    pub fn alloc_contract(
        &'ast self,
        name: AnnName<'ast>,
        formals: Names<'ast>,
        body: AnnProc<'ast>,
    ) -> (r: &'ast Proc<'ast>)
        ensures
            r@ == (ProcV::Contract { name: name@, formals: formals@, body: body@ }),
    {
        arena_alloc(&self.arena, Proc::Contract { name, formals, body })
    }

    pub fn alloc_send_sync(&'ast self, channel: AnnName<'ast>, messages: &[AnnProc<'ast>]) -> (r:
        &'ast Proc<'ast>)
        ensures
            r@ == (ProcV::SendSync {
                channel: channel@,
                messages: procs_model(messages@),
                cont: SyncSendContV::Empty,
            }),
    {
        let value = Proc::SendSync {
            channel,
            messages: slice_to_vec(messages),
            cont: SyncSendCont::Empty,
        };
        proof {
            reveal_with_fuel(Proc::model, 3);
            assert(match value@ {
                ProcV::SendSync { channel: c, messages: m, cont } => m =~= procs_model(messages@)
                    && c == channel@ && cont == SyncSendContV::Empty,
                _ => false,
            });
        }
        arena_alloc(&self.arena, value)
    }

    pub fn alloc_send_sync_with_cont(
        &'ast self,
        channel: AnnName<'ast>,
        messages: &[AnnProc<'ast>],
        cont: AnnProc<'ast>,
    ) -> (r: &'ast Proc<'ast>)
        ensures
            r@ == (ProcV::SendSync {
                channel: channel@,
                messages: procs_model(messages@),
                cont: SyncSendContV::NonEmpty(cont@),
            }),
    {
        let value = Proc::SendSync {
            channel,
            messages: slice_to_vec(messages),
            cont: SyncSendCont::NonEmpty(cont),
        };
        proof {
            reveal_with_fuel(Proc::model, 3);
            assert(match value@ {
                ProcV::SendSync { channel: c, messages: m, cont: k } => m =~= procs_model(
                    messages@,
                ) && c == channel@ && k == SyncSendContV::NonEmpty(cont@),
                _ => false,
            });
        }
        arena_alloc(&self.arena, value)
    }

    pub fn alloc_eval(&'ast self, name: AnnName<'ast>) -> (r: &'ast Proc<'ast>)
        ensures
            r@ == (ProcV::Eval { name: name@ }),
    {
        arena_alloc(&self.arena, Proc::Eval { name })
    }

    pub fn alloc_quote(&'ast self, proc: &'ast Proc<'ast>) -> (r: &'ast Proc<'ast>)
        ensures
            r@ == (ProcV::Quote { proc: Box::new(proc@) }),
    {
        arena_alloc(&self.arena, Proc::Quote { proc })
    }

    pub fn alloc_method(
        &'ast self,
        name: Id<'ast>,
        receiver: AnnProc<'ast>,
        args: &[AnnProc<'ast>],
    ) -> (r: &'ast Proc<'ast>)
        ensures
            r@ == (ProcV::Method {
                receiver: receiver@,
                name: name.model(),
                args: procs_model(args@),
            }),
    {
        let value = Proc::Method { receiver, name, args: slice_to_vec(args) };
        proof {
            reveal_with_fuel(Proc::model, 3);
            assert(match value@ {
                ProcV::Method { receiver: r, name: n, args: a } => a =~= procs_model(args@) && r
                    == receiver@ && n == name.model(),
                _ => false,
            });
        }
        arena_alloc(&self.arena, value)
    }

    pub fn alloc_binary_exp(
        &'ast self,
        op: BinaryExpOp,
        left: AnnProc<'ast>,
        right: AnnProc<'ast>,
    ) -> (r: &'ast Proc<'ast>)
        ensures
            r@ == (ProcV::BinaryExp { op, left: left@, right: right@ }),
    {
        arena_alloc(&self.arena, Proc::BinaryExp { op, left, right })
    }

    pub fn alloc_unary_exp(&'ast self, op: UnaryExpOp, arg: &'ast Proc<'ast>) -> (r:
        &'ast Proc<'ast>)
        ensures
            r@ == (ProcV::UnaryExp { op, arg: Box::new(arg@) }),
    {
        arena_alloc(&self.arena, Proc::UnaryExp { op, arg })
    }

    pub fn alloc_var_ref(&'ast self, kind: VarRefKind, var: Id<'ast>) -> (r: &'ast Proc<'ast>)
        ensures
            r@ == (ProcV::VarRef { kind, var: var.model() }),
    {
        arena_alloc(&self.arena, Proc::VarRef { kind, var })
    }
}

} // verus!
