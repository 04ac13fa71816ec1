//! What the driver does with one syntax node: the process of a leaf, or
//! the rule of a composite construct together with the nodes that are its
//! operands, in the order in which they are evaluated.
use vstd::prelude::*;
use crate::SourceSpan;
use crate::ast::{
    BinaryExpOp, BundleType, Id, IdV, NameDecl, NameDeclV, Proc, ProcV, SendType, SimpleType,
    UnaryExpOp, Uri, VarRefKind, VarV, decls_model,
};
use crate::cst::{ CstNode, Field, NodeKind};
use crate::parser::ast_builder::ASTBuilder;
use crate::parser::errors::{
    errors_model, AnnParsingError, AnnParsingErrorV, ParsingError, ParsingErrorV,
};
use crate::parser::rules::{BindDesc, LetDecl, ReceiptDesc, Rule, RuleV, SourceDesc, desc_model};
use crate::text::{lex_lt, parse_i64, parsed_i64, str_eq, str_lt, trimmed};

verus! {

/// Operands still to be evaluated: one node, or every named child of a node.
#[derive(Debug, Clone, Copy)]
pub enum Pending<'ast> {
    One(&'ast CstNode),
    Named(&'ast CstNode),
}

pub ghost enum EvalV {
    One(CstNode),
    Named(CstNode),
}

impl<'ast> Pending<'ast> {
    pub open spec fn model(&self) -> EvalV {
        match self {
            Pending::One(c) => EvalV::One(**c),
            Pending::Named(p) => EvalV::Named(**p),
        }
    }
}

/// The twins of a run of pending operands.
pub open spec fn pending_model(s: Seq<Pending>) -> Seq<EvalV> {
    s.map_values(|p: Pending| p.model())
}

/// What is to be done with a node.
pub ghost enum Plan {
    /// The node is a leaf and evaluates to `proc`.
    Leaf { proc: ProcV },
    /// The node is not of a shape that the driver knows.
    Fail,
    /// The node is an integer literal that does not fit 64 bits.
    OutOfRange,
    /// The node only wraps another one, which is evaluated in its place.
    Forward { to: CstNode },
    /// The node is a composite construct: `rule` builds it out of the
    /// operands that `evals` lists; `errors` is what is wrong with the node
    /// itself.
    Build { rule: RuleV, evals: Seq<EvalV>, errors: Seq<AnnParsingErrorV> },
}

/// What classifying a node hands to the driver.
pub enum Classified<'ast> {
    Done { proc: &'ast Proc<'ast>, ok: bool, out_of_range: bool },
    Forward(&'ast CstNode),
    Build { rule: Rule<'ast>, pending: Vec<Pending<'ast>>, errors: Vec<AnnParsingError> },
}

/// Whether `r` is what `plan` asks for.
pub open spec fn classified(r: Classified, plan: Plan) -> bool {
    match plan {
        Plan::Leaf { proc } => r matches Classified::Done { proc: p, ok, out_of_range } && p@ == proc
            && ok && !out_of_range,
        Plan::Fail => r matches Classified::Done { proc: p, ok, out_of_range } && p@ == ProcV::Bad
            && !ok && !out_of_range,
        Plan::OutOfRange => r matches Classified::Done { proc: p, ok, out_of_range } && p@
            == ProcV::Bad && ok && out_of_range,
        Plan::Forward { to } => r matches Classified::Forward(c) && *c == to,
        Plan::Build { rule, evals, errors } => r matches Classified::Build {
            rule: r0,
            pending,
            errors: es,
        } && r0@ == rule && pending_model(pending@) == evals && errors_model(es@) == errors,
    }
}

// ---------------------------------------------------------------------------
// Reading children
// ---------------------------------------------------------------------------

/// The first named child.
pub fn get_first_child<'a>(of: &'a CstNode) -> (r: Option<&'a CstNode>)
    ensures
        match r {
            Some(c) => of.first_named() == Some(*c),
            None => of.first_named() is None,
        },
{
    of.named_child(0)
}

/// The first two named children.
pub open spec fn left_and_right(of: CstNode) -> Option<(CstNode, CstNode)> {
    if of.named_children().len() >= 2 {
        Some((of.named_children()[0], of.named_children()[1]))
    } else {
        None
    }
}

/// The first two named children.
pub fn get_left_and_right<'a>(of: &'a CstNode) -> (r: Option<(&'a CstNode, &'a CstNode)>)
    ensures
        match r {
            Some((l, r)) => left_and_right(*of) == Some((*l, *r)),
            None => left_and_right(*of) is None,
        },
{
    match of.named_child(0) {
        Some(left) => match of.named_child(1) {
            Some(right) => Some((left, right)),
            None => None,
        },
        None => None,
    }
}

/// The child that hangs under `id`.
pub fn get_field<'a>(of: &'a CstNode, id: Field) -> (r: Option<&'a CstNode>)
    ensures
        match r {
            Some(c) => of.field_child(id) == Some(*c),
            None => of.field_child(id) is None,
        },
{
    of.child_by_field(id)
}

/// The text of a node.
pub fn get_node_value<'a>(node: &'a CstNode) -> (r: &'a str)
    ensures
        r@ == node.text@,
{
    node.text()
}

/// The identifier that a node spells, at the place where the node starts.
pub open spec fn id_of(node: CstNode) -> IdV {
    IdV { name: node.text@, pos: node.span.start }
}

fn id_at<'a>(node: &'a CstNode) -> (r: Id<'a>)
    ensures
        r.model() == id_of(*node),
{
    Id { name: get_node_value(node), pos: node.span.start }
}

// ---------------------------------------------------------------------------
// Operators and tags
// ---------------------------------------------------------------------------

/// The binary operator that a kind of node stands for.
pub open spec fn binary_op(kind: NodeKind) -> Option<BinaryExpOp> {
    match kind {
        NodeKind::Or => Some(BinaryExpOp::Or),
        NodeKind::And => Some(BinaryExpOp::And),
        NodeKind::Matches => Some(BinaryExpOp::Matches),
        NodeKind::Eq => Some(BinaryExpOp::Eq),
        NodeKind::Neq => Some(BinaryExpOp::Neq),
        NodeKind::Lt => Some(BinaryExpOp::Lt),
        NodeKind::Lte => Some(BinaryExpOp::Lte),
        NodeKind::Gt => Some(BinaryExpOp::Gt),
        NodeKind::Gte => Some(BinaryExpOp::Gte),
        NodeKind::Concat => Some(BinaryExpOp::Concat),
        NodeKind::Diff => Some(BinaryExpOp::Diff),
        NodeKind::Add => Some(BinaryExpOp::Add),
        NodeKind::Sub => Some(BinaryExpOp::Sub),
        NodeKind::Interpolation => Some(BinaryExpOp::Interpolation),
        NodeKind::Mult => Some(BinaryExpOp::Mult),
        NodeKind::Div => Some(BinaryExpOp::Div),
        NodeKind::Mod => Some(BinaryExpOp::Mod),
        NodeKind::Disjunction => Some(BinaryExpOp::Disjunction),
        NodeKind::Conjunction => Some(BinaryExpOp::Conjunction),
        _ => None,
    }
}

fn binary_op_of(kind: NodeKind) -> (r: Option<BinaryExpOp>)
    ensures
        r == binary_op(kind),
{
    match kind {
        NodeKind::Or => Some(BinaryExpOp::Or),
        NodeKind::And => Some(BinaryExpOp::And),
        NodeKind::Matches => Some(BinaryExpOp::Matches),
        NodeKind::Eq => Some(BinaryExpOp::Eq),
        NodeKind::Neq => Some(BinaryExpOp::Neq),
        NodeKind::Lt => Some(BinaryExpOp::Lt),
        NodeKind::Lte => Some(BinaryExpOp::Lte),
        NodeKind::Gt => Some(BinaryExpOp::Gt),
        NodeKind::Gte => Some(BinaryExpOp::Gte),
        NodeKind::Concat => Some(BinaryExpOp::Concat),
        NodeKind::Diff => Some(BinaryExpOp::Diff),
        NodeKind::Add => Some(BinaryExpOp::Add),
        NodeKind::Sub => Some(BinaryExpOp::Sub),
        NodeKind::Interpolation => Some(BinaryExpOp::Interpolation),
        NodeKind::Mult => Some(BinaryExpOp::Mult),
        NodeKind::Div => Some(BinaryExpOp::Div),
        NodeKind::Mod => Some(BinaryExpOp::Mod),
        NodeKind::Disjunction => Some(BinaryExpOp::Disjunction),
        NodeKind::Conjunction => Some(BinaryExpOp::Conjunction),
        _ => None,
    }
}

/// The unary operator that a kind of node stands for.
pub open spec fn unary_op(kind: NodeKind) -> Option<UnaryExpOp> {
    match kind {
        NodeKind::Neg => Some(UnaryExpOp::Neg),
        NodeKind::Not => Some(UnaryExpOp::Not),
        NodeKind::Negation => Some(UnaryExpOp::Negation),
        _ => None,
    }
}

fn unary_op_of(kind: NodeKind) -> (r: Option<UnaryExpOp>)
    ensures
        r == unary_op(kind),
{
    match kind {
        NodeKind::Neg => Some(UnaryExpOp::Neg),
        NodeKind::Not => Some(UnaryExpOp::Not),
        NodeKind::Negation => Some(UnaryExpOp::Negation),
        _ => None,
    }
}

/// The simple type that a word names.
pub open spec fn simple_type_of(word: Seq<char>) -> Option<SimpleType> {
    if word == "Bool"@ {
        Some(SimpleType::Bool)
    } else if word == "Int"@ {
        Some(SimpleType::Int)
    } else if word == "String"@ {
        Some(SimpleType::String)
    } else if word == "Uri"@ {
        Some(SimpleType::Uri)
    } else if word == "ByteArray"@ {
        Some(SimpleType::ByteArray)
    } else {
        None
    }
}

/// The truth value that a word names.
pub open spec fn bool_of(word: Seq<char>) -> Option<bool> {
    if word == "true"@ {
        Some(true)
    } else if word == "false"@ {
        Some(false)
    } else {
        None
    }
}

/// The kind of variable reference that a marker token announces.
pub open spec fn var_ref_kind_of(marker: Seq<char>) -> Option<VarRefKind> {
    if marker == "="@ {
        Some(VarRefKind::Proc)
    } else if marker == "=*"@ {
        Some(VarRefKind::Name)
    } else {
        None
    }
}

// ---------------------------------------------------------------------------
// Plans of the constructs with a fixed number of operands
// ---------------------------------------------------------------------------

/// A composite without errors of its own.
pub open spec fn build_plan(rule: RuleV, evals: Seq<EvalV>) -> Plan {
    Plan::Build { rule, evals, errors: Seq::empty() }
}

/// A construct over its first named child.
pub open spec fn plan_single(node: CstNode, rule: RuleV) -> Plan {
    match node.first_named() {
        Some(c) => build_plan(rule, seq![EvalV::One(c)]),
        None => Plan::Fail,
    }
}

/// A construct over its first two named children.
pub open spec fn plan_pair(node: CstNode, rule: RuleV) -> Plan {
    match left_and_right(node) {
        Some((l, r)) => build_plan(rule, seq![EvalV::One(l), EvalV::One(r)]),
        None => Plan::Fail,
    }
}

pub open spec fn plan_method(node: CstNode) -> Plan {
    match (
        node.field_child(Field::Receiver),
        node.field_child(Field::Name),
        node.field_child(Field::Args),
    ) {
        (Some(receiver), Some(name), Some(args)) => build_plan(
            RuleV::Method {
                span: node.span,
                id: id_of(name),
                arity: args.named_children().len(),
            },
            seq![EvalV::One(receiver), EvalV::Named(args)],
        ),
        _ => Plan::Fail,
    }
}

pub open spec fn plan_send(node: CstNode) -> Plan {
    match (
        node.field_child(Field::Channel),
        node.field_child(Field::SendType),
        node.field_child(Field::Inputs),
    ) {
        (Some(channel), Some(send_type), Some(inputs)) => {
            let rule = |t: SendType|
                RuleV::Send { send_type: t, arity: inputs.named_children().len(), span: node.span };
            let evals = seq![EvalV::One(channel), EvalV::Named(inputs)];
            match send_type.kind {
                NodeKind::SendSingle => build_plan(rule(SendType::Single), evals),
                NodeKind::SendMultiple => build_plan(rule(SendType::Multiple), evals),
                _ => Plan::Fail,
            }
        },
        _ => Plan::Fail,
    }
}

pub open spec fn plan_contract(node: CstNode) -> Plan {
    match (node.field_child(Field::Name), node.field_child(Field::Proc)) {
        (Some(name), Some(body)) => match node.field_child(Field::Formals) {
            Some(formals) => build_plan(
                RuleV::Contract {
                    arity: formals.named_children().len(),
                    has_cont: formals.field_child(Field::Cont) is Some,
                    span: node.span,
                },
                seq![EvalV::One(name), EvalV::One(body), EvalV::Named(formals)],
            ),
            None => build_plan(
                RuleV::Contract { arity: 0, has_cont: false, span: node.span },
                seq![EvalV::One(name), EvalV::One(body)],
            ),
        },
        _ => Plan::Fail,
    }
}

pub open spec fn plan_if(node: CstNode) -> Plan {
    match (node.field_child(Field::Condition), node.field_child(Field::Consequence)) {
        (Some(condition), Some(consequence)) => match node.field_child(Field::Alternative) {
            Some(alternative) => build_plan(
                RuleV::IfThenElse { span: node.span },
                seq![EvalV::One(condition), EvalV::One(consequence), EvalV::One(alternative)],
            ),
            None => build_plan(
                RuleV::IfThen { span: node.span },
                seq![EvalV::One(condition), EvalV::One(consequence)],
            ),
        },
        _ => Plan::Fail,
    }
}

/// The bundle type that a kind of node stands for.
pub open spec fn bundle_type(kind: NodeKind) -> Option<BundleType> {
    match kind {
        NodeKind::BundleWrite => Some(BundleType::BundleWrite),
        NodeKind::BundleRead => Some(BundleType::BundleRead),
        NodeKind::BundleEquiv => Some(BundleType::BundleEquiv),
        NodeKind::BundleReadWrite => Some(BundleType::BundleReadWrite),
        _ => None,
    }
}

pub open spec fn plan_bundle(node: CstNode) -> Plan {
    match (node.field_child(Field::BundleType), node.field_child(Field::Proc)) {
        (Some(tag), Some(body)) => match bundle_type(tag.kind) {
            Some(typ) => build_plan(RuleV::Bundle { span: node.span, typ }, seq![EvalV::One(body)]),
            None => Plan::Fail,
        },
        _ => Plan::Fail,
    }
}

pub open spec fn plan_send_sync(node: CstNode) -> Plan {
    match (
        node.field_child(Field::Channel),
        node.field_child(Field::Inputs),
        node.field_child(Field::Cont),
    ) {
        (Some(channel), Some(messages), Some(cont)) => match cont.first_named() {
            Some(choice) => {
                let arity = messages.named_children().len();
                match choice.kind {
                    NodeKind::EmptyCont => build_plan(
                        RuleV::SendSync { span: node.span, arity },
                        seq![EvalV::One(channel), EvalV::Named(messages)],
                    ),
                    NodeKind::NonEmptyCont => match choice.first_named() {
                        Some(then) => build_plan(
                            RuleV::SendSyncWithCont { span: node.span, arity },
                            seq![EvalV::One(channel), EvalV::Named(messages), EvalV::One(then)],
                        ),
                        None => Plan::Fail,
                    },
                    _ => Plan::Fail,
                }
            },
            None => Plan::Fail,
        },
        _ => Plan::Fail,
    }
}

pub open spec fn plan_var_ref(node: CstNode) -> Plan {
    match left_and_right(node) {
        Some((marker, var)) => match marker.first_named() {
            Some(token) => match var_ref_kind_of(token.grammar_name@) {
                Some(kind) => Plan::Leaf { proc: ProcV::VarRef { kind, var: id_of(var) } },
                None => Plan::Fail,
            },
            None => Plan::Fail,
        },
        None => Plan::Fail,
    }
}

pub open spec fn plan_long_literal(node: CstNode) -> Plan {
    match parsed_i64(node.text@) {
        Some(v) => Plan::Leaf { proc: ProcV::LongLiteral(v) },
        None => Plan::OutOfRange,
    }
}

pub open spec fn plan_simple_type(node: CstNode) -> Plan {
    match simple_type_of(node.text@) {
        Some(t) => Plan::Leaf { proc: ProcV::SimpleType(t) },
        None => Plan::Fail,
    }
}

pub open spec fn plan_bool_literal(node: CstNode) -> Plan {
    match bool_of(node.text@) {
        Some(b) => Plan::Leaf { proc: ProcV::BoolLiteral(b) },
        None => Plan::Fail,
    }
}

// ---------------------------------------------------------------------------
// Classifying the constructs with a fixed number of operands
// ---------------------------------------------------------------------------

fn fail<'ast>(builder: &'ast ASTBuilder<'ast>) -> (r: Classified<'ast>)
    ensures
        classified(r, Plan::Fail),
{
    Classified::Done { proc: builder.bad(), ok: false, out_of_range: false }
}

fn leaf<'ast>(proc: &'ast Proc<'ast>) -> (r: Classified<'ast>)
    ensures
        classified(r, Plan::Leaf { proc: proc@ }),
{
    Classified::Done { proc, ok: true, out_of_range: false }
}

fn composite<'ast>(rule: Rule<'ast>, pending: Vec<Pending<'ast>>) -> (r: Classified<'ast>)
    ensures
        classified(r, build_plan(rule@, pending_model(pending@))),
{
    let errors: Vec<AnnParsingError> = Vec::new();
    assert(errors_model(errors@) =~= Seq::empty());
    Classified::Build { rule, pending, errors }
}

fn pending1<'ast>(a: Pending<'ast>) -> (r: Vec<Pending<'ast>>)
    ensures
        pending_model(r@) == seq![a.model()],
{
    let mut v = Vec::new();
    v.push(a);
    assert(pending_model(v@) =~= seq![a.model()]);
    v
}

fn pending2<'ast>(a: Pending<'ast>, b: Pending<'ast>) -> (r: Vec<Pending<'ast>>)
    ensures
        pending_model(r@) == seq![a.model(), b.model()],
{
    let mut v = Vec::new();
    v.push(a);
    v.push(b);
    assert(pending_model(v@) =~= seq![a.model(), b.model()]);
    v
}

fn pending3<'ast>(a: Pending<'ast>, b: Pending<'ast>, c: Pending<'ast>) -> (r: Vec<Pending<'ast>>)
    ensures
        pending_model(r@) == seq![a.model(), b.model(), c.model()],
{
    let mut v = Vec::new();
    v.push(a);
    v.push(b);
    v.push(c);
    assert(pending_model(v@) =~= seq![a.model(), b.model(), c.model()]);
    v
}

fn classify_single<'ast>(node: &'ast CstNode, rule: Rule<'ast>, builder: &'ast ASTBuilder<'ast>) -> (r:
    Classified<'ast>)
    ensures
        classified(r, plan_single(*node, rule@)),
{
    match get_first_child(node) {
        Some(c) => composite(rule, pending1(Pending::One(c))),
        None => fail(builder),
    }
}

fn classify_pair<'ast>(node: &'ast CstNode, rule: Rule<'ast>, builder: &'ast ASTBuilder<'ast>) -> (r:
    Classified<'ast>)
    ensures
        classified(r, plan_pair(*node, rule@)),
{
    match get_left_and_right(node) {
        Some((l, r)) => composite(rule, pending2(Pending::One(l), Pending::One(r))),
        None => fail(builder),
    }
}

fn classify_method<'ast>(node: &'ast CstNode, builder: &'ast ASTBuilder<'ast>) -> (r: Classified<'ast>)
    ensures
        classified(r, plan_method(*node)),
{
    let receiver = match get_field(node, Field::Receiver) {
        Some(c) => c,
        None => {
            return fail(builder);
        },
    };
    let name = match get_field(node, Field::Name) {
        Some(c) => c,
        None => {
            return fail(builder);
        },
    };
    let args = match get_field(node, Field::Args) {
        Some(c) => c,
        None => {
            return fail(builder);
        },
    };
    composite(
        Rule::Method { span: node.span, id: id_at(name), arity: args.named_child_count() },
        pending2(Pending::One(receiver), Pending::Named(args)),
    )
}

fn classify_send<'ast>(node: &'ast CstNode, builder: &'ast ASTBuilder<'ast>) -> (r: Classified<'ast>)
    ensures
        classified(r, plan_send(*node)),
{
    let channel = match get_field(node, Field::Channel) {
        Some(c) => c,
        None => {
            return fail(builder);
        },
    };
    let send_type_node = match get_field(node, Field::SendType) {
        Some(c) => c,
        None => {
            return fail(builder);
        },
    };
    let inputs = match get_field(node, Field::Inputs) {
        Some(c) => c,
        None => {
            return fail(builder);
        },
    };
    let send_type = match send_type_node.kind {
        NodeKind::SendSingle => SendType::Single,
        NodeKind::SendMultiple => SendType::Multiple,
        _ => {
            return fail(builder);
        },
    };
    composite(
        Rule::Send { send_type, arity: inputs.named_child_count(), span: node.span },
        pending2(Pending::One(channel), Pending::Named(inputs)),
    )
}

fn classify_contract<'ast>(node: &'ast CstNode, builder: &'ast ASTBuilder<'ast>) -> (r: Classified<
    'ast,
>)
    ensures
        classified(r, plan_contract(*node)),
{
    let name = match get_field(node, Field::Name) {
        Some(c) => c,
        None => {
            return fail(builder);
        },
    };
    let body = match get_field(node, Field::Proc) {
        Some(c) => c,
        None => {
            return fail(builder);
        },
    };
    match node.child_by_field(Field::Formals) {
        Some(formals) => composite(
            Rule::Contract {
                arity: formals.named_child_count(),
                has_cont: formals.child_by_field(Field::Cont).is_some(),
                span: node.span,
            },
            pending3(Pending::One(name), Pending::One(body), Pending::Named(formals)),
        ),
        None => composite(
            Rule::Contract { arity: 0, has_cont: false, span: node.span },
            pending2(Pending::One(name), Pending::One(body)),
        ),
    }
}

fn classify_if<'ast>(node: &'ast CstNode, builder: &'ast ASTBuilder<'ast>) -> (r: Classified<'ast>)
    ensures
        classified(r, plan_if(*node)),
{
    let condition = match get_field(node, Field::Condition) {
        Some(c) => c,
        None => {
            return fail(builder);
        },
    };
    let consequence = match get_field(node, Field::Consequence) {
        Some(c) => c,
        None => {
            return fail(builder);
        },
    };
    match node.child_by_field(Field::Alternative) {
        Some(alternative) => composite(
            Rule::IfThenElse { span: node.span },
            pending3(
                Pending::One(condition),
                Pending::One(consequence),
                Pending::One(alternative),
            ),
        ),
        None => composite(
            Rule::IfThen { span: node.span },
            pending2(Pending::One(condition), Pending::One(consequence)),
        ),
    }
}

fn classify_bundle<'ast>(node: &'ast CstNode, builder: &'ast ASTBuilder<'ast>) -> (r: Classified<'ast>)
    ensures
        classified(r, plan_bundle(*node)),
{
    let tag = match get_field(node, Field::BundleType) {
        Some(c) => c,
        None => {
            return fail(builder);
        },
    };
    let body = match get_field(node, Field::Proc) {
        Some(c) => c,
        None => {
            return fail(builder);
        },
    };
    let typ = match tag.kind {
        NodeKind::BundleWrite => BundleType::BundleWrite,
        NodeKind::BundleRead => BundleType::BundleRead,
        NodeKind::BundleEquiv => BundleType::BundleEquiv,
        NodeKind::BundleReadWrite => BundleType::BundleReadWrite,
        _ => {
            return fail(builder);
        },
    };
    composite(Rule::Bundle { span: node.span, typ }, pending1(Pending::One(body)))
}

fn classify_send_sync<'ast>(node: &'ast CstNode, builder: &'ast ASTBuilder<'ast>) -> (r: Classified<
    'ast,
>)
    ensures
        classified(r, plan_send_sync(*node)),
{
    let channel = match get_field(node, Field::Channel) {
        Some(c) => c,
        None => {
            return fail(builder);
        },
    };
    let messages = match get_field(node, Field::Inputs) {
        Some(c) => c,
        None => {
            return fail(builder);
        },
    };
    let cont = match get_field(node, Field::Cont) {
        Some(c) => c,
        None => {
            return fail(builder);
        },
    };
    let choice = match get_first_child(cont) {
        Some(c) => c,
        None => {
            return fail(builder);
        },
    };
    let arity = messages.named_child_count();
    match choice.kind {
        NodeKind::EmptyCont => composite(
            Rule::SendSync { span: node.span, arity },
            pending2(Pending::One(channel), Pending::Named(messages)),
        ),
        NodeKind::NonEmptyCont => match get_first_child(choice) {
            Some(then) => composite(
                Rule::SendSyncWithCont { span: node.span, arity },
                pending3(Pending::One(channel), Pending::Named(messages), Pending::One(then)),
            ),
            None => fail(builder),
        },
        _ => fail(builder),
    }
}

fn classify_var_ref<'ast>(node: &'ast CstNode, builder: &'ast ASTBuilder<'ast>) -> (r: Classified<
    'ast,
>)
    ensures
        classified(r, plan_var_ref(*node)),
{
    let (marker, var) = match get_left_and_right(node) {
        Some(pair) => pair,
        None => {
            return fail(builder);
        },
    };
    let token = match get_first_child(marker) {
        Some(c) => c,
        None => {
            return fail(builder);
        },
    };
    let name = token.grammar_name.as_str();
    let kind = if str_eq(name, "=") {
        VarRefKind::Proc
    } else if str_eq(name, "=*") {
        VarRefKind::Name
    } else {
        return fail(builder);
    };
    leaf(builder.alloc_var_ref(kind, id_at(var)))
}

fn classify_long_literal<'ast>(node: &'ast CstNode, builder: &'ast ASTBuilder<'ast>) -> (r: Classified<
    'ast,
>)
    ensures
        classified(r, plan_long_literal(*node)),
{
    match parse_i64(get_node_value(node)) {
        Some(v) => leaf(builder.alloc_long_literal(v)),
        None => Classified::Done { proc: builder.bad(), ok: true, out_of_range: true },
    }
}

fn classify_simple_type<'ast>(node: &'ast CstNode, builder: &'ast ASTBuilder<'ast>) -> (r: Classified<
    'ast,
>)
    ensures
        classified(r, plan_simple_type(*node)),
{
    let word = get_node_value(node);
    let t = if str_eq(word, "Bool") {
        SimpleType::Bool
    } else if str_eq(word, "Int") {
        SimpleType::Int
    } else if str_eq(word, "String") {
        SimpleType::String
    } else if str_eq(word, "Uri") {
        SimpleType::Uri
    } else if str_eq(word, "ByteArray") {
        SimpleType::ByteArray
    } else {
        return fail(builder);
    };
    leaf(builder.alloc_simple_type(t))
}

fn classify_bool_literal<'ast>(node: &'ast CstNode, builder: &'ast ASTBuilder<'ast>) -> (r: Classified<
    'ast,
>)
    ensures
        classified(r, plan_bool_literal(*node)),
{
    let word = get_node_value(node);
    if str_eq(word, "true") {
        leaf(builder.bool_literal(true))
    } else if str_eq(word, "false") {
        leaf(builder.bool_literal(false))
    } else {
        fail(builder)
    }
}

// ---------------------------------------------------------------------------
// Pairs: the entries of a map, the cases of a match
// ---------------------------------------------------------------------------

/// `done` followed by `rest`, where there is a rest.
pub open spec fn then_evals(done: Seq<EvalV>, rest: Option<Seq<EvalV>>) -> Option<Seq<EvalV>> {
    match rest {
        Some(r) => Some(done + r),
        None => None,
    }
}

/// How many of `children[from..]` are named nodes of kind `kind`.
pub open spec fn pair_count(children: Seq<CstNode>, kind: NodeKind, from: int) -> nat
    decreases children.len() - from,
{
    if from < 0 || from >= children.len() {
        0
    } else if children[from].named && children[from].kind == kind {
        1 + pair_count(children, kind, from + 1)
    } else {
        pair_count(children, kind, from + 1)
    }
}

/// The operands of the pairs among `children[from..]`: of each named node of
/// kind `kind`, its child under `first`, then its child under `second`.
/// `None` where a pair lacks one of the two.
pub open spec fn pair_evals(
    children: Seq<CstNode>,
    kind: NodeKind,
    first: Field,
    second: Field,
    from: int,
) -> Option<Seq<EvalV>>
    decreases children.len() - from,
{
    if from < 0 || from >= children.len() {
        Some(Seq::empty())
    } else if children[from].named && children[from].kind == kind {
        match (children[from].field_child(first), children[from].field_child(second)) {
            (Some(a), Some(b)) => then_evals(
                seq![EvalV::One(a), EvalV::One(b)],
                pair_evals(children, kind, first, second, from + 1),
            ),
            _ => None,
        }
    } else {
        pair_evals(children, kind, first, second, from + 1)
    }
}

/// Appends to `out` the operands of the pairs of `of` and gives their number,
/// or nothing, with `out` in no particular state, where a pair lacks one of
/// its two parts.
pub fn eval_named_pairs<'ast>(
    of: &'ast CstNode,
    kind: NodeKind,
    first: Field,
    second: Field,
    out: &mut Vec<Pending<'ast>>,
) -> (r: Option<usize>)
    ensures
        r is Some <==> pair_evals(of.children@, kind, first, second, 0) is Some,
        r matches Some(n) ==> n == pair_count(of.children@, kind, 0) && pending_model(final(out)@)
            == pending_model(old(out)@) + pair_evals(of.children@, kind, first, second, 0)->0,
{
    let ghost before = pending_model(out@);
    let ghost mut done: Seq<EvalV> = Seq::empty();
    let mut arity: usize = 0;
    let mut i: usize = 0;
    proof {
        assert(before + done =~= before);
        let all = pair_evals(of.children@, kind, first, second, 0);
        if all is Some {
            assert(done + all->0 =~= all->0);
        }
    }
    while i < of.children.len()
        invariant
            i <= of.children@.len(),
            arity <= i,
            arity + pair_count(of.children@, kind, i as int) == pair_count(of.children@, kind, 0),
            pending_model(out@) == before + done,
            pair_evals(of.children@, kind, first, second, 0) == then_evals(
                done,
                pair_evals(of.children@, kind, first, second, i as int),
            ),
        decreases of.children@.len() - i,
    {
        let child = &of.children[i];
        if child.named && child.kind == kind {
            let a = match child.child_by_field(first) {
                Some(c) => c,
                None => {
                    return None;
                },
            };
            let b = match child.child_by_field(second) {
                Some(c) => c,
                None => {
                    return None;
                },
            };
            proof {
                let step = seq![EvalV::One(*a), EvalV::One(*b)];
                let rest = pair_evals(of.children@, kind, first, second, i + 1);
                if rest is Some {
                    assert(done + (step + rest->0) =~= (done + step) + rest->0);
                }
                assert(pending_model(out@.push(Pending::One(a)).push(Pending::One(b)))
                    =~= pending_model(out@).push(EvalV::One(*a)).push(EvalV::One(*b)));
                assert(pending_model(out@).push(EvalV::One(*a)).push(EvalV::One(*b)) =~= before
                    + (done + step));
                done = done + step;
            }
            out.push(Pending::One(a));
            out.push(Pending::One(b));
            arity += 1;
        }
        i += 1;
    }
    proof {
        assert(done + Seq::<EvalV>::empty() =~= done);
    }
    Some(arity)
}

// ---------------------------------------------------------------------------
// Collections and match
// ---------------------------------------------------------------------------

pub open spec fn plan_collection(node: CstNode) -> Plan {
    match node.first_named() {
        None => Plan::Fail,
        Some(c) => {
            let rem = if c.kind == NodeKind::Tuple {
                None
            } else {
                c.field_child(Field::Remainder)
            };
            let has_remainder = rem is Some;
            let arity = c.named_children().len();
            match c.kind {
                NodeKind::List => build_plan(
                    RuleV::List { arity, has_remainder, span: node.span },
                    seq![EvalV::Named(c)],
                ),
                NodeKind::SetOf => build_plan(
                    RuleV::SetOf { arity, has_remainder, span: node.span },
                    seq![EvalV::Named(c)],
                ),
                NodeKind::Tuple => build_plan(
                    RuleV::Tuple { arity, span: node.span },
                    seq![EvalV::Named(c)],
                ),
                NodeKind::MapOf => match pair_evals(
                    c.children@,
                    NodeKind::KeyValuePair,
                    Field::Key,
                    Field::Value,
                    0,
                ) {
                    Some(pairs) => build_plan(
                        RuleV::MapOf {
                            arity: pair_count(c.children@, NodeKind::KeyValuePair, 0),
                            has_remainder,
                            span: node.span,
                        },
                        (match rem {
                            Some(r) => seq![EvalV::One(r)],
                            None => Seq::empty(),
                        }) + pairs,
                    ),
                    None => Plan::Fail,
                },
                _ => Plan::Fail,
            }
        },
    }
}

fn classify_collection<'ast>(node: &'ast CstNode, builder: &'ast ASTBuilder<'ast>) -> (r: Classified<
    'ast,
>)
    ensures
        classified(r, plan_collection(*node)),
{
    let c = match get_first_child(node) {
        Some(c) => c,
        None => {
            return fail(builder);
        },
    };
    let rem = match c.kind {
        NodeKind::Tuple => None,
        _ => c.child_by_field(Field::Remainder),
    };
    let has_remainder = rem.is_some();
    match c.kind {
        NodeKind::List => composite(
            Rule::List { arity: c.named_child_count(), has_remainder, span: node.span },
            pending1(Pending::Named(c)),
        ),
        NodeKind::SetOf => composite(
            Rule::SetOf { arity: c.named_child_count(), has_remainder, span: node.span },
            pending1(Pending::Named(c)),
        ),
        NodeKind::Tuple => composite(
            Rule::Tuple { arity: c.named_child_count(), span: node.span },
            pending1(Pending::Named(c)),
        ),
        NodeKind::MapOf => {
            let mut pending: Vec<Pending<'ast>> = Vec::new();
            match rem {
                Some(r) => {
                    pending.push(Pending::One(r));
                    assert(pending_model(pending@) =~= seq![EvalV::One(*r)]);
                },
                None => {
                    assert(pending_model(pending@) =~= Seq::empty());
                },
            }
            match eval_named_pairs(c, NodeKind::KeyValuePair, Field::Key, Field::Value, &mut pending) {
                Some(arity) => composite(
                    Rule::MapOf { arity, has_remainder, span: node.span },
                    pending,
                ),
                None => fail(builder),
            }
        },
        _ => fail(builder),
    }
}

pub open spec fn plan_match(node: CstNode) -> Plan {
    match (node.field_child(Field::Expression), node.field_child(Field::Cases)) {
        (Some(expression), Some(cases)) => match pair_evals(
            cases.children@,
            NodeKind::Case,
            Field::Pattern,
            Field::Proc,
            0,
        ) {
            Some(pairs) => build_plan(
                RuleV::Match {
                    span: node.span,
                    arity: pair_count(cases.children@, NodeKind::Case, 0),
                },
                seq![EvalV::One(expression)] + pairs,
            ),
            None => Plan::Fail,
        },
        _ => Plan::Fail,
    }
}

fn classify_match<'ast>(node: &'ast CstNode, builder: &'ast ASTBuilder<'ast>) -> (r: Classified<'ast>)
    ensures
        classified(r, plan_match(*node)),
{
    let expression = match get_field(node, Field::Expression) {
        Some(c) => c,
        None => {
            return fail(builder);
        },
    };
    let cases = match get_field(node, Field::Cases) {
        Some(c) => c,
        None => {
            return fail(builder);
        },
    };
    let mut pending = pending1(Pending::One(expression));
    match eval_named_pairs(cases, NodeKind::Case, Field::Pattern, Field::Proc, &mut pending) {
        Some(arity) => composite(Rule::Match { span: node.span, arity }, pending),
        None => fail(builder),
    }
}

// ---------------------------------------------------------------------------
// New: declarations, sorted by name, and their duplicates
// ---------------------------------------------------------------------------

/// The declaration that a node of a `new` spells: the name of its first named
/// child, and the URI under its `uri` field without the backticks.
pub open spec fn decl_of(decl: CstNode) -> Option<NameDeclV> {
    match decl.first_named() {
        Some(var) => Some(
            NameDeclV {
                id: id_of(var),
                uri: match decl.field_child(Field::Uri) {
                    Some(u) => Some(trimmed(u.text@, '`')),
                    None => None,
                },
            },
        ),
        None => None,
    }
}

/// `done` followed by `rest`, where there is a rest.
pub open spec fn then_decls(done: Seq<NameDeclV>, rest: Option<Seq<NameDeclV>>) -> Option<
    Seq<NameDeclV>,
> {
    match rest {
        Some(r) => Some(done + r),
        None => None,
    }
}

/// The declarations that the named nodes among `children[from..]` spell.
pub open spec fn decls_of(children: Seq<CstNode>, from: int) -> Option<Seq<NameDeclV>>
    decreases children.len() - from,
{
    if from < 0 || from >= children.len() {
        Some(Seq::empty())
    } else if children[from].named {
        match decl_of(children[from]) {
            Some(d) => then_decls(seq![d], decls_of(children, from + 1)),
            None => None,
        }
    } else {
        decls_of(children, from + 1)
    }
}

/// `sorted` with `d` put in behind every declaration whose name does not
/// sort after the name of `d`.
pub open spec fn insert_decl(sorted: Seq<NameDeclV>, d: NameDeclV) -> Seq<NameDeclV>
    decreases sorted.len(),
{
    if sorted.len() == 0 {
        seq![d]
    } else if lex_lt(d.id.name, sorted.last().id.name) {
        insert_decl(sorted.drop_last(), d).push(sorted.last())
    } else {
        sorted.push(d)
    }
}

/// The declarations in the order of their names; declarations of one name
/// keep the order in which they were written.
pub open spec fn sorted_decls(decls: Seq<NameDeclV>) -> Seq<NameDeclV>
    decreases decls.len(),
{
    if decls.len() == 0 {
        Seq::empty()
    } else {
        insert_decl(sorted_decls(decls.drop_last()), decls.last())
    }
}

/// The first place at or after `from` where two neighbours of `sorted` bear
/// the same name.
pub open spec fn first_duplicate(sorted: Seq<NameDeclV>, from: int) -> Option<int>
    decreases sorted.len() - from,
{
    if from < 0 || from + 1 >= sorted.len() {
        None
    } else if sorted[from].id.name == sorted[from + 1].id.name {
        Some(from)
    } else {
        first_duplicate(sorted, from + 1)
    }
}

/// What is wrong with the declarations of one `new`: nothing, or the first
/// name that is declared twice, with the places of its first two
/// declarations, the earlier one first.
pub open spec fn duplicate_error(sorted: Seq<NameDeclV>, span: SourceSpan) -> Seq<AnnParsingErrorV> {
    match first_duplicate(sorted, 0) {
        Some(i) => {
            let a = sorted[i].id.pos;
            let b = sorted[i + 1].id.pos;
            seq![
                AnnParsingErrorV {
                    error: if b.precedes_spec(a) {
                        ParsingErrorV::DuplicateNameDecl { first: b, second: a }
                    } else {
                        ParsingErrorV::DuplicateNameDecl { first: a, second: b }
                    },
                    span,
                },
            ]
        },
        None => Seq::empty(),
    }
}

/// Duplicate detection order: a duplicate is reported with the places of two
/// neighbours of the same name, and the place reported as `first` never comes
/// after the one reported as `second`.
pub proof fn lemma_duplicate_order(sorted: Seq<NameDeclV>, span: SourceSpan)
    ensures
        match first_duplicate(sorted, 0) {
            Some(i) => {
                &&& 0 <= i && i + 1 < sorted.len()
                &&& sorted[i].id.name == sorted[i + 1].id.name
                &&& duplicate_error(sorted, span).len() == 1
                &&& duplicate_error(sorted, span)[0].span == span
                &&& duplicate_error(sorted, span)[0].error matches ParsingErrorV::DuplicateNameDecl {
                    first,
                    second,
                } && !second.precedes_spec(first) && ((first == sorted[i].id.pos && second
                    == sorted[i + 1].id.pos) || (first == sorted[i + 1].id.pos && second
                    == sorted[i].id.pos))
            },
            None => duplicate_error(sorted, span).len() == 0,
        },
{
    lemma_first_duplicate(sorted, 0);
}

/// Where the first duplicate is found, two neighbours bear the same name.
pub proof fn lemma_first_duplicate(sorted: Seq<NameDeclV>, from: int)
    requires
        0 <= from,
    ensures
        first_duplicate(sorted, from) matches Some(i) ==> from <= i && i + 1 < sorted.len()
            && sorted[i].id.name == sorted[i + 1].id.name,
    decreases sorted.len() - from,
{
    if from + 1 < sorted.len() && sorted[from].id.name != sorted[from + 1].id.name {
        lemma_first_duplicate(sorted, from + 1);
    }
}

pub open spec fn plan_new(node: CstNode) -> Plan {
    match (node.field_child(Field::Decls), node.field_child(Field::Proc)) {
        (Some(decls_node), Some(body)) => match decls_of(decls_node.children@, 0) {
            Some(decls) => Plan::Build {
                rule: RuleV::New { decls: sorted_decls(decls), span: node.span },
                evals: seq![EvalV::One(body)],
                errors: duplicate_error(sorted_decls(decls), decls_node.span),
            },
            None => Plan::Fail,
        },
        _ => Plan::Fail,
    }
}

/// Reads the declarations of a `new`, in the order in which they are written.
pub fn parse_decls<'a>(from: &'a CstNode) -> (r: Option<Vec<NameDecl<'a>>>)
    ensures
        match r {
            Some(v) => decls_of(from.children@, 0) == Some(decls_model(v@)),
            None => decls_of(from.children@, 0) is None,
        },
{
    let mut result: Vec<NameDecl<'a>> = Vec::new();
    let mut i: usize = 0;
    proof {
        let all = decls_of(from.children@, 0);
        if all is Some {
            assert(decls_model(result@) + all->0 =~= all->0);
        }
    }
    while i < from.children.len()
        invariant
            i <= from.children@.len(),
            decls_of(from.children@, 0) == then_decls(
                decls_model(result@),
                decls_of(from.children@, i as int),
            ),
        decreases from.children@.len() - i,
    {
        let decl_node = &from.children[i];
        if decl_node.named {
            let var_node = match get_first_child(decl_node) {
                Some(c) => c,
                None => {
                    return None;
                },
            };
            let uri = match decl_node.child_by_field(Field::Uri) {
                Some(u) => Some(Uri::from_literal(get_node_value(u))),
                None => None,
            };
            let d = NameDecl { id: id_at(var_node), uri };
            proof {
                assert(d.model() == decl_of(*decl_node)->0);
                let rest = decls_of(from.children@, i + 1);
                if rest is Some {
                    assert(decls_model(result@) + (seq![d.model()] + rest->0) =~= decls_model(
                        result@.push(d),
                    ) + rest->0);
                }
            }
            result.push(d);
        }
        i += 1;
    }
    proof {
        assert(decls_model(result@) + Seq::<NameDeclV>::empty() =~= decls_model(result@));
    }
    Some(result)
}

/// Puts `d` into the sorted `sorted`, behind every declaration whose name
/// does not sort after its own.
fn insert_sorted<'a>(sorted: &mut Vec<NameDecl<'a>>, d: NameDecl<'a>)
    ensures
        decls_model(final(sorted)@) == insert_decl(decls_model(old(sorted)@), d.model()),
{
    let ghost all = decls_model(sorted@);
    let mut j: usize = sorted.len();
    proof {
        assert(all.take(j as int) =~= all);
        assert(insert_decl(all, d.model()) + all.skip(j as int) =~= insert_decl(all, d.model()));
    }
    while j > 0 && str_lt(d.id.name, sorted[j - 1].id.name)
        invariant
            j <= sorted@.len(),
            all == decls_model(sorted@),
            insert_decl(all, d.model()) == insert_decl(all.take(j as int), d.model()) + all.skip(
                j as int,
            ),
        decreases j,
    {
        proof {
            let part = all.take(j as int);
            assert(part.last() == all[j - 1]);
            assert(part.drop_last() =~= all.take(j - 1));
            assert(insert_decl(all.take(j - 1), d.model()).push(all[j - 1]) + all.skip(j as int)
                =~= insert_decl(all.take(j - 1), d.model()) + all.skip(j - 1));
        }
        j -= 1;
    }
    proof {
        let part = all.take(j as int);
        if j > 0 {
            assert(part.last() == all[j - 1]);
        }
        assert(insert_decl(part, d.model()) == part.push(d.model()));
        assert(decls_model(sorted@.insert(j as int, d)) =~= part.push(d.model()) + all.skip(
            j as int,
        ));
    }
    sorted.insert(j, d);
}

/// Sorts declarations by name; declarations of one name keep their order.
pub fn sort_decls<'a>(decls: &Vec<NameDecl<'a>>) -> (r: Vec<NameDecl<'a>>)
    ensures
        decls_model(r@) == sorted_decls(decls_model(decls@)),
{
    let ghost all = decls_model(decls@);
    let mut out: Vec<NameDecl<'a>> = Vec::new();
    let mut i: usize = 0;
    proof {
        assert(decls_model(out@) =~= Seq::empty());
        assert(all.take(0) =~= Seq::empty());
    }
    while i < decls.len()
        invariant
            i <= decls@.len(),
            all == decls_model(decls@),
            decls_model(out@) == sorted_decls(all.take(i as int)),
        decreases decls@.len() - i,
    {
        proof {
            let next = all.take(i + 1);
            assert(next.drop_last() =~= all.take(i as int));
            assert(next.last() == decls@[i as int].model());
        }
        insert_sorted(&mut out, decls[i]);
        i += 1;
    }
    proof {
        assert(all.take(i as int) =~= all);
    }
    out
}

/// Looks for the first two neighbours of the same name.
fn find_duplicate<'a>(sorted: &Vec<NameDecl<'a>>) -> (r: Option<usize>)
    ensures
        match r {
            Some(i) => first_duplicate(decls_model(sorted@), 0) == Some(i as int) && i + 1
                < sorted@.len(),
            None => first_duplicate(decls_model(sorted@), 0) is None,
        },
{
    let ghost all = decls_model(sorted@);
    let n = sorted.len();
    if n < 2 {
        return None;
    }
    let mut i: usize = 0;
    while i < n - 1
        invariant
            all == decls_model(sorted@),
            n == sorted@.len(),
            n >= 2,
            first_duplicate(all, 0) == first_duplicate(all, i as int),
        decreases n - i,
    {
        if str_eq(sorted[i].id.name, sorted[i + 1].id.name) {
            return Some(i);
        }
        i += 1;
    }
    None
}

#[verifier::rlimit(40)]
fn classify_new<'ast>(node: &'ast CstNode, builder: &'ast ASTBuilder<'ast>) -> (r: Classified<'ast>)
    ensures
        classified(r, plan_new(*node)),
{
    let decls_node = match get_field(node, Field::Decls) {
        Some(c) => c,
        None => {
            return fail(builder);
        },
    };
    let body = match get_field(node, Field::Proc) {
        Some(c) => c,
        None => {
            return fail(builder);
        },
    };
    let parsed = match parse_decls(decls_node) {
        Some(v) => v,
        None => {
            return fail(builder);
        },
    };
    let decls = sort_decls(&parsed);
    let mut errors: Vec<AnnParsingError> = Vec::new();
    proof {
        assert(decls@.len() == decls.len());
    }
    match find_duplicate(&decls) {
        Some(i) => {
            let a = decls[i].id.pos;
            let b = decls[i + 1].id.pos;
            let error = if b.precedes(&a) {
                ParsingError::DuplicateNameDecl { first: b, second: a }
            } else {
                ParsingError::DuplicateNameDecl { first: a, second: b }
            };
            let e = AnnParsingError { error, span: decls_node.span };
            errors.push(e);
            proof {
                assert(decls_model(decls@)[i as int] == decls@[i as int].model());
                assert(decls_model(decls@)[i + 1] == decls@[i + 1].model());
                assert(errors_model(errors@) =~= seq![e@]);
            }
        },
        None => {
            assert(errors_model(errors@) =~= Seq::empty());
        },
    }
    Classified::Build {
        rule: Rule::New { decls, span: node.span },
        pending: pending1(Pending::One(body)),
        errors,
    }
}

// ---------------------------------------------------------------------------
// For-comprehensions
// ---------------------------------------------------------------------------

/// One bind of a receipt: what it stands for, and its operands in order (the
/// channel, the inputs of a send-receive source, the names).
pub ghost struct BindPlan {
    pub desc: BindDesc,
    pub evals: Seq<EvalV>,
}

/// The plan of one bind. A bind with two named children has names and a
/// source, one with a single named child has a source only.
pub open spec fn bind_plan(bind: CstNode) -> Option<BindPlan> {
    let named = bind.named_children();
    if named.len() == 0 {
        None
    } else {
        let names: Option<CstNode> = if named.len() > 1 {
            Some(named[0])
        } else {
            None
        };
        let source = if named.len() > 1 {
            named[1]
        } else {
            named[0]
        };
        let name_count = match names {
            Some(ns) => ns.named_children().len() as usize,
            None => 0usize,
        };
        let cont_present = match names {
            Some(ns) => ns.field_child(Field::Cont) is Some,
            None => false,
        };
        let names_evals = match names {
            Some(ns) => seq![EvalV::Named(ns)],
            None => Seq::empty(),
        };
        match bind.kind {
            NodeKind::LinearBind => match source.kind {
                NodeKind::SimpleSource => match source.first_named() {
                    Some(channel) => Some(
                        BindPlan {
                            desc: BindDesc::Linear {
                                name_count,
                                cont_present,
                                source: SourceDesc::Simple,
                            },
                            evals: seq![EvalV::One(channel)] + names_evals,
                        },
                    ),
                    None => None,
                },
                NodeKind::ReceiveSendSource => match source.first_named() {
                    Some(channel) => Some(
                        BindPlan {
                            desc: BindDesc::Linear { name_count, cont_present, source: SourceDesc::RS },
                            evals: seq![EvalV::One(channel)] + names_evals,
                        },
                    ),
                    None => None,
                },
                NodeKind::SendReceiveSource => match (
                    source.field_child(Field::Inputs),
                    source.first_named(),
                ) {
                    (Some(inputs), Some(channel)) => Some(
                        BindPlan {
                            desc: BindDesc::Linear {
                                name_count,
                                cont_present,
                                source: SourceDesc::SR {
                                    arity: inputs.named_children().len() as usize,
                                },
                            },
                            evals: seq![EvalV::One(channel), EvalV::Named(inputs)] + names_evals,
                        },
                    ),
                    _ => None,
                },
                _ => None,
            },
            NodeKind::RepeatedBind => Some(
                BindPlan {
                    desc: BindDesc::Repeated { name_count, cont_present },
                    evals: seq![EvalV::One(source)] + names_evals,
                },
            ),
            NodeKind::PeekBind => Some(
                BindPlan {
                    desc: BindDesc::Peek { name_count, cont_present },
                    evals: seq![EvalV::One(source)] + names_evals,
                },
            ),
            _ => None,
        }
    }
}

/// Appends to `out` the operands of one bind and gives what it stands for, or
/// nothing, with `out` in no particular state, where the bind has no plan.
#[verifier::rlimit(40)]
fn classify_bind<'ast>(bind: &'ast CstNode, out: &mut Vec<Pending<'ast>>) -> (r: Option<BindDesc>)
    ensures
        r is Some <==> bind_plan(*bind) is Some,
        r matches Some(d) ==> d == bind_plan(*bind)->0.desc && pending_model(final(out)@)
            == pending_model(old(out)@) + bind_plan(*bind)->0.evals,
{
    let ghost before = pending_model(out@);
    let count = bind.named_child_count();
    if count == 0 {
        return None;
    }
    let first = match bind.named_child(0) {
        Some(c) => c,
        None => {
            return None;
        },
    };
    let (names, source): (Option<&'ast CstNode>, &'ast CstNode) = if count > 1 {
        match bind.named_child(1) {
            Some(c) => (Some(first), c),
            None => {
                return None;
            },
        }
    } else {
        (None, first)
    };
    let (name_count, cont_present): (usize, bool) = match names {
        Some(ns) => (ns.named_child_count(), ns.child_by_field(Field::Cont).is_some()),
        None => (0, false),
    };
    let ghost names_evals = match names {
        Some(ns) => seq![EvalV::Named(*ns)],
        None => Seq::empty(),
    };
    let desc = match bind.kind {
        NodeKind::LinearBind => {
            let source_desc = match source.kind {
                NodeKind::SimpleSource => SourceDesc::Simple,
                NodeKind::ReceiveSendSource => SourceDesc::RS,
                NodeKind::SendReceiveSource => match source.child_by_field(Field::Inputs) {
                    Some(inputs) => SourceDesc::SR { arity: inputs.named_child_count() },
                    None => {
                        return None;
                    },
                },
                _ => {
                    return None;
                },
            };
            let channel = match get_first_child(source) {
                Some(c) => c,
                None => {
                    return None;
                },
            };
            out.push(Pending::One(channel));
            proof {
                assert(pending_model(out@) =~= before + seq![EvalV::One(*channel)]);
            }
            match source.kind {
                NodeKind::SendReceiveSource => match source.child_by_field(Field::Inputs) {
                    Some(inputs) => {
                        out.push(Pending::Named(inputs));
                        proof {
                            assert(pending_model(out@) =~= before + seq![
                                EvalV::One(*channel),
                                EvalV::Named(*inputs),
                            ]);
                        }
                    },
                    None => {},
                },
                _ => {},
            }
            BindDesc::Linear { name_count, cont_present, source: source_desc }
        },
        NodeKind::RepeatedBind => {
            out.push(Pending::One(source));
            proof {
                assert(pending_model(out@) =~= before + seq![EvalV::One(*source)]);
            }
            BindDesc::Repeated { name_count, cont_present }
        },
        NodeKind::PeekBind => {
            out.push(Pending::One(source));
            proof {
                assert(pending_model(out@) =~= before + seq![EvalV::One(*source)]);
            }
            BindDesc::Peek { name_count, cont_present }
        },
        _ => {
            return None;
        },
    };
    let ghost head = pending_model(out@);
    match names {
        Some(ns) => {
            out.push(Pending::Named(ns));
            proof {
                assert(pending_model(out@) =~= head + names_evals);
            }
        },
        None => {
            proof {
                assert(pending_model(out@) =~= head + names_evals);
            }
        },
    }
    proof {
        let plan = bind_plan(*bind)->0;
        assert(desc == plan.desc);
        assert(pending_model(out@) =~= before + plan.evals);
    }
    Some(desc)
}

/// `descs` and `evals` followed by `rest`, where there is a rest.
pub open spec fn then_binds(
    descs: Seq<BindDesc>,
    evals: Seq<EvalV>,
    rest: Option<(Seq<BindDesc>, Seq<EvalV>)>,
) -> Option<(Seq<BindDesc>, Seq<EvalV>)> {
    match rest {
        Some((d, e)) => Some((descs + d, evals + e)),
        None => None,
    }
}

/// The binds that the named nodes among `children[from..]` are, and their
/// operands in order.
pub open spec fn binds_plan(children: Seq<CstNode>, from: int) -> Option<
    (Seq<BindDesc>, Seq<EvalV>),
>
    decreases children.len() - from,
{
    if from < 0 || from >= children.len() {
        Some((Seq::empty(), Seq::empty()))
    } else if children[from].named {
        match bind_plan(children[from]) {
            Some(b) => then_binds(seq![b.desc], b.evals, binds_plan(children, from + 1)),
            None => None,
        }
    } else {
        binds_plan(children, from + 1)
    }
}

/// `descs` and `evals` followed by `rest`, where there is a rest.
pub open spec fn then_receipts(
    descs: Seq<Seq<BindDesc>>,
    evals: Seq<EvalV>,
    rest: Option<(Seq<Seq<BindDesc>>, Seq<EvalV>)>,
) -> Option<(Seq<Seq<BindDesc>>, Seq<EvalV>)> {
    match rest {
        Some((d, e)) => Some((descs + d, evals + e)),
        None => None,
    }
}

/// The receipts that the named nodes among `children[from..]` are, and their
/// operands in order.
pub open spec fn receipts_plan(children: Seq<CstNode>, from: int) -> Option<
    (Seq<Seq<BindDesc>>, Seq<EvalV>),
>
    decreases children.len() - from,
{
    if from < 0 || from >= children.len() {
        Some((Seq::empty(), Seq::empty()))
    } else if children[from].named {
        match binds_plan(children[from].children@, 0) {
            Some((binds, evals)) => then_receipts(
                seq![binds],
                evals,
                receipts_plan(children, from + 1),
            ),
            None => None,
        }
    } else {
        receipts_plan(children, from + 1)
    }
}

pub open spec fn plan_input(node: CstNode) -> Plan {
    match (node.field_child(Field::Receipts), node.field_child(Field::Proc)) {
        (Some(receipts), Some(body)) => match receipts_plan(receipts.children@, 0) {
            Some((desc, evals)) => build_plan(
                RuleV::ForComprehension { desc, span: node.span },
                seq![EvalV::One(body)] + evals,
            ),
            None => Plan::Fail,
        },
        _ => Plan::Fail,
    }
}

/// Appends to `out` the operands of the binds of one receipt and gives what
/// the binds stand for.
fn classify_receipt<'ast>(receipt: &'ast CstNode, out: &mut Vec<Pending<'ast>>) -> (r: Option<
    ReceiptDesc,
>)
    ensures
        r is Some <==> binds_plan(receipt.children@, 0) is Some,
        r matches Some(d) ==> d.parts@ == (binds_plan(receipt.children@, 0)->0).0 && pending_model(
            final(out)@,
        ) == pending_model(old(out)@) + (binds_plan(receipt.children@, 0)->0).1,
{
    let ghost before = pending_model(out@);
    let ghost mut done: Seq<EvalV> = Seq::empty();
    let mut parts: Vec<BindDesc> = Vec::new();
    let mut i: usize = 0;
    proof {
        assert(before + done =~= before);
        let all = binds_plan(receipt.children@, 0);
        if all is Some {
            assert(parts@ + (all->0).0 =~= (all->0).0);
            assert(done + (all->0).1 =~= (all->0).1);
        }
    }
    while i < receipt.children.len()
        invariant
            i <= receipt.children@.len(),
            pending_model(out@) == before + done,
            binds_plan(receipt.children@, 0) == then_binds(
                parts@,
                done,
                binds_plan(receipt.children@, i as int),
            ),
        decreases receipt.children@.len() - i,
    {
        let bind = &receipt.children[i];
        if bind.named {
            match classify_bind(bind, out) {
                None => {
                    return None;
                },
                Some(d) => {
                    proof {
                        let b = bind_plan(*bind)->0;
                        let rest = binds_plan(receipt.children@, i + 1);
                        if rest is Some {
                            assert(parts@ + (seq![d] + (rest->0).0) =~= parts@.push(d) + (rest->0).0);
                            assert(done + (b.evals + (rest->0).1) =~= (done + b.evals) + (rest->0).1);
                        }
                        assert(before + done + b.evals =~= before + (done + b.evals));
                        done = done + b.evals;
                    }
                    parts.push(d);
                },
            }
        }
        i += 1;
    }
    proof {
        assert(parts@ + Seq::<BindDesc>::empty() =~= parts@);
        assert(done + Seq::<EvalV>::empty() =~= done);
    }
    Some(ReceiptDesc { parts })
}

#[verifier::rlimit(40)]
fn classify_input<'ast>(node: &'ast CstNode, builder: &'ast ASTBuilder<'ast>) -> (r: Classified<'ast>)
    ensures
        classified(r, plan_input(*node)),
{
    let receipts = match get_field(node, Field::Receipts) {
        Some(c) => c,
        None => {
            return fail(builder);
        },
    };
    let body = match get_field(node, Field::Proc) {
        Some(c) => c,
        None => {
            return fail(builder);
        },
    };
    let mut pending = pending1(Pending::One(body));
    let ghost before = pending_model(pending@);
    let ghost mut done: Seq<EvalV> = Seq::empty();
    let mut desc: Vec<ReceiptDesc> = Vec::new();
    let mut i: usize = 0;
    proof {
        assert(before + done =~= before);
        let all = receipts_plan(receipts.children@, 0);
        if all is Some {
            assert(desc_model(desc@) + (all->0).0 =~= (all->0).0);
            assert(done + (all->0).1 =~= (all->0).1);
        }
    }
    while i < receipts.children.len()
        invariant
            i <= receipts.children@.len(),
            node.field_child(Field::Receipts) == Some(*receipts),
            node.field_child(Field::Proc) == Some(*body),
            before == seq![EvalV::One(*body)],
            pending_model(pending@) == before + done,
            receipts_plan(receipts.children@, 0) == then_receipts(
                desc_model(desc@),
                done,
                receipts_plan(receipts.children@, i as int),
            ),
        decreases receipts.children@.len() - i,
    {
        let receipt = &receipts.children[i];
        if receipt.named {
            match classify_receipt(receipt, &mut pending) {
                None => {
                    assert(receipts_plan(receipts.children@, i as int) is None);
                    return fail(builder);
                },
                Some(d) => {
                    proof {
                        let b = binds_plan(receipt.children@, 0)->0;
                        let rest = receipts_plan(receipts.children@, i + 1);
                        if rest is Some {
                            assert(desc_model(desc@) + (seq![b.0] + (rest->0).0) =~= desc_model(
                                desc@.push(d),
                            ) + (rest->0).0);
                            assert(done + (b.1 + (rest->0).1) =~= (done + b.1) + (rest->0).1);
                        }
                        assert(before + done + b.1 =~= before + (done + b.1));
                        done = done + b.1;
                    }
                    desc.push(d);
                },
            }
        }
        i += 1;
    }
    proof {
        assert(desc_model(desc@) + Seq::<Seq<BindDesc>>::empty() =~= desc_model(desc@));
        assert(done + Seq::<EvalV>::empty() =~= done);
    }
    composite(Rule::ForComprehension { desc, span: node.span }, pending)
}

// ---------------------------------------------------------------------------
// Let
// ---------------------------------------------------------------------------

/// Whether the two sides of a declaration match in number: as many names as
/// values, or, where the last name is a remainder, at most as many.
pub open spec fn let_decl_fits(decl: LetDecl) -> bool {
    decl.lhs_arity == decl.rhs_arity || (decl.lhs_has_cont && decl.lhs_arity <= decl.rhs_arity)
}

/// What a declaration node of a `let` stands for: its first named child holds
/// the names, its second the values.
pub open spec fn let_decl_of(decl: CstNode) -> Option<LetDecl> {
    match left_and_right(decl) {
        Some((lhs, rhs)) => Some(
            LetDecl {
                lhs_arity: lhs.named_children().len() as usize,
                lhs_has_cont: lhs.field_child(Field::Cont) is Some,
                rhs_arity: rhs.named_children().len() as usize,
            },
        ),
        None => None,
    }
}

/// What is wrong with a declaration node of a `let`.
pub open spec fn let_decl_errors(decl: CstNode) -> Seq<AnnParsingErrorV> {
    match let_decl_of(decl) {
        Some(d) => if let_decl_fits(d) {
            Seq::empty()
        } else {
            seq![
                AnnParsingErrorV {
                    error: ParsingErrorV::MalformedLetDecl {
                        lhs_arity: d.lhs_arity,
                        rhs_arity: d.rhs_arity,
                    },
                    span: decl.span,
                },
            ]
        },
        None => Seq::empty(),
    }
}

/// The declarations of a `let`, their operands in order, and what is wrong
/// with them.
pub ghost struct LetPlan {
    pub decls: Seq<LetDecl>,
    pub evals: Seq<EvalV>,
    pub errors: Seq<AnnParsingErrorV>,
}

/// `done` followed by `rest`, where there is a rest.
pub open spec fn then_let(done: LetPlan, rest: Option<LetPlan>) -> Option<LetPlan> {
    match rest {
        Some(r) => Some(
            LetPlan {
                decls: done.decls + r.decls,
                evals: done.evals + r.evals,
                errors: done.errors + r.errors,
            },
        ),
        None => None,
    }
}

/// The plan of the declarations that the named nodes among `children[from..]`
/// are.
pub open spec fn let_plan(children: Seq<CstNode>, from: int) -> Option<LetPlan>
    decreases children.len() - from,
{
    if from < 0 || from >= children.len() {
        Some(LetPlan { decls: Seq::empty(), evals: Seq::empty(), errors: Seq::empty() })
    } else if children[from].named {
        match (let_decl_of(children[from]), left_and_right(children[from])) {
            (Some(d), Some((lhs, rhs))) => then_let(
                LetPlan {
                    decls: seq![d],
                    evals: seq![EvalV::Named(lhs), EvalV::Named(rhs)],
                    errors: let_decl_errors(children[from]),
                },
                let_plan(children, from + 1),
            ),
            _ => None,
        }
    } else {
        let_plan(children, from + 1)
    }
}

pub open spec fn plan_let(node: CstNode) -> Plan {
    match (node.field_child(Field::Decls), node.field_child(Field::Proc)) {
        (Some(decls_node), Some(body)) => match let_plan(decls_node.children@, 0) {
            Some(p) => Plan::Build {
                rule: RuleV::Let {
                    span: node.span,
                    concurrent: decls_node.kind == NodeKind::ConcDecls,
                    let_decls: p.decls,
                },
                evals: seq![EvalV::One(body)] + p.evals,
                errors: p.errors,
            },
            None => Plan::Fail,
        },
        _ => Plan::Fail,
    }
}

#[verifier::rlimit(40)]
fn classify_let<'ast>(node: &'ast CstNode, builder: &'ast ASTBuilder<'ast>) -> (r: Classified<'ast>)
    ensures
        classified(r, plan_let(*node)),
{
    let decls_node = match get_field(node, Field::Decls) {
        Some(c) => c,
        None => {
            return fail(builder);
        },
    };
    let body = match get_field(node, Field::Proc) {
        Some(c) => c,
        None => {
            return fail(builder);
        },
    };
    let concurrent = match decls_node.kind {
        NodeKind::ConcDecls => true,
        _ => false,
    };
    let mut pending = pending1(Pending::One(body));
    let mut errors: Vec<AnnParsingError> = Vec::new();
    let mut let_decls: Vec<LetDecl> = Vec::new();
    let ghost before = pending_model(pending@);
    let ghost mut done: Seq<EvalV> = Seq::empty();
    let mut i: usize = 0;
    proof {
        assert(before + done =~= before);
        assert(errors_model(errors@) =~= Seq::empty());
        let all = let_plan(decls_node.children@, 0);
        if all is Some {
            assert(let_decls@ + all->0.decls =~= all->0.decls);
            assert(done + all->0.evals =~= all->0.evals);
            assert(errors_model(errors@) + all->0.errors =~= all->0.errors);
        }
    }
    while i < decls_node.children.len()
        invariant
            i <= decls_node.children@.len(),
            node.field_child(Field::Decls) == Some(*decls_node),
            node.field_child(Field::Proc) == Some(*body),
            before == seq![EvalV::One(*body)],
            pending_model(pending@) == before + done,
            let_plan(decls_node.children@, 0) == then_let(
                LetPlan { decls: let_decls@, evals: done, errors: errors_model(errors@) },
                let_plan(decls_node.children@, i as int),
            ),
        decreases decls_node.children@.len() - i,
    {
        let decl_node = &decls_node.children[i];
        if decl_node.named {
            let (lhs, rhs) = match get_left_and_right(decl_node) {
                Some(pair) => pair,
                None => {
                    assert(let_plan(decls_node.children@, i as int) is None);
                    return fail(builder);
                },
            };
            let d = LetDecl {
                lhs_arity: lhs.named_child_count(),
                lhs_has_cont: lhs.child_by_field(Field::Cont).is_some(),
                rhs_arity: rhs.named_child_count(),
            };
            let ghost errors_before = errors_model(errors@);
            let fits = d.lhs_arity == d.rhs_arity || (d.lhs_has_cont && d.lhs_arity <= d.rhs_arity);
            if !fits {
                let e = AnnParsingError {
                    error: ParsingError::MalformedLetDecl {
                        lhs_arity: d.lhs_arity,
                        rhs_arity: d.rhs_arity,
                    },
                    span: decl_node.span,
                };
                proof {
                    assert(errors_model(errors@.push(e)) =~= errors_before + let_decl_errors(
                        *decl_node,
                    ));
                }
                errors.push(e);
            } else {
                proof {
                    assert(errors_model(errors@) =~= errors_before + let_decl_errors(*decl_node));
                }
            }
            proof {
                let step = seq![EvalV::Named(*lhs), EvalV::Named(*rhs)];
                let rest = let_plan(decls_node.children@, i + 1);
                if rest is Some {
                    assert(let_decls@ + (seq![d] + rest->0.decls) =~= let_decls@.push(d)
                        + rest->0.decls);
                    assert(done + (step + rest->0.evals) =~= (done + step) + rest->0.evals);
                    assert(errors_before + (let_decl_errors(*decl_node) + rest->0.errors) =~= (
                    errors_before + let_decl_errors(*decl_node)) + rest->0.errors);
                }
                assert(pending_model(pending@.push(Pending::Named(lhs)).push(Pending::Named(rhs)))
                    =~= pending_model(pending@).push(EvalV::Named(*lhs)).push(EvalV::Named(*rhs)));
                assert(pending_model(pending@).push(EvalV::Named(*lhs)).push(EvalV::Named(*rhs))
                    =~= before + (done + step));
                done = done + step;
            }
            pending.push(Pending::Named(lhs));
            pending.push(Pending::Named(rhs));
            let_decls.push(d);
        }
        i += 1;
    }
    proof {
        assert(let_decls@ + Seq::<LetDecl>::empty() =~= let_decls@);
        assert(done + Seq::<EvalV>::empty() =~= done);
        assert(errors_model(errors@) + Seq::<AnnParsingErrorV>::empty() =~= errors_model(errors@));
    }
    Classified::Build { rule: Rule::Let { span: node.span, concurrent, let_decls }, pending, errors }
}

// ---------------------------------------------------------------------------
// Every kind of node
// ---------------------------------------------------------------------------

/// What the driver does with a node that is neither an error nor a missing
/// token.
pub open spec fn plan(node: CstNode) -> Plan {
    match node.kind {
        NodeKind::Block => match node.first_named() {
            Some(c) => Plan::Forward { to: c },
            None => Plan::Fail,
        },
        NodeKind::Wildcard => Plan::Leaf { proc: ProcV::ProcVar(VarV::Wildcard) },
        NodeKind::Var => Plan::Leaf { proc: ProcV::ProcVar(VarV::Id(id_of(node))) },
        NodeKind::Nil => Plan::Leaf { proc: ProcV::Nil },
        NodeKind::Unit => Plan::Leaf { proc: ProcV::Unit },
        NodeKind::SimpleType => plan_simple_type(node),
        NodeKind::BoolLiteral => plan_bool_literal(node),
        NodeKind::LongLiteral => plan_long_literal(node),
        NodeKind::StringLiteral => Plan::Leaf { proc: ProcV::StringLiteral(trimmed(node.text@, '"')) },
        NodeKind::UriLiteral => Plan::Leaf { proc: ProcV::UriLiteral(trimmed(node.text@, '`')) },
        NodeKind::Par => plan_pair(node, RuleV::Par { span: node.span }),
        NodeKind::Eval => plan_single(node, RuleV::Eval { span: node.span }),
        NodeKind::Quote => plan_single(node, RuleV::Quote { span: node.span }),
        NodeKind::Method => plan_method(node),
        NodeKind::Collection => plan_collection(node),
        NodeKind::Send => plan_send(node),
        NodeKind::New => plan_new(node),
        NodeKind::Contract => plan_contract(node),
        NodeKind::IfElse => plan_if(node),
        NodeKind::Input => plan_input(node),
        NodeKind::Match => plan_match(node),
        NodeKind::Let => plan_let(node),
        NodeKind::Bundle => plan_bundle(node),
        NodeKind::SendSync => plan_send_sync(node),
        NodeKind::VarRef => plan_var_ref(node),
        _ => match binary_op(node.kind) {
            Some(op) => plan_pair(node, RuleV::BinaryExp { op, span: node.span }),
            None => match unary_op(node.kind) {
                Some(op) => plan_single(node, RuleV::UnaryExp { op, span: node.span }),
                None => Plan::Fail,
            },
        },
    }
}

/// Classifies a node that is neither an error nor a missing token.
#[verifier::rlimit(40)]
pub fn classify<'ast>(node: &'ast CstNode, builder: &'ast ASTBuilder<'ast>) -> (r: Classified<'ast>)
    ensures
        classified(r, plan(*node)),
{
    match node.kind {
        NodeKind::Block => match get_first_child(node) {
            Some(c) => Classified::Forward(c),
            None => fail(builder),
        },
        NodeKind::Wildcard => leaf(builder.wildcard()),
        NodeKind::Var => leaf(builder.alloc_var(id_at(node))),
        NodeKind::Nil => leaf(builder.nil()),
        NodeKind::Unit => leaf(builder.unit()),
        NodeKind::SimpleType => classify_simple_type(node, builder),
        NodeKind::BoolLiteral => classify_bool_literal(node, builder),
        NodeKind::LongLiteral => classify_long_literal(node, builder),
        NodeKind::StringLiteral => leaf(builder.alloc_string_literal(get_node_value(node))),
        NodeKind::UriLiteral => leaf(builder.alloc_uri_literal(get_node_value(node))),
        NodeKind::Par => classify_pair(node, Rule::Par { span: node.span }, builder),
        NodeKind::Eval => classify_single(node, Rule::Eval { span: node.span }, builder),
        NodeKind::Quote => classify_single(node, Rule::Quote { span: node.span }, builder),
        NodeKind::Method => classify_method(node, builder),
        NodeKind::Collection => classify_collection(node, builder),
        NodeKind::Send => classify_send(node, builder),
        NodeKind::New => classify_new(node, builder),
        NodeKind::Contract => classify_contract(node, builder),
        NodeKind::IfElse => classify_if(node, builder),
        NodeKind::Input => classify_input(node, builder),
        NodeKind::Match => classify_match(node, builder),
        NodeKind::Let => classify_let(node, builder),
        NodeKind::Bundle => classify_bundle(node, builder),
        NodeKind::SendSync => classify_send_sync(node, builder),
        NodeKind::VarRef => classify_var_ref(node, builder),
        _ => match binary_op_of(node.kind) {
            Some(op) => classify_pair(node, Rule::BinaryExp { op, span: node.span }, builder),
            None => match unary_op_of(node.kind) {
                Some(op) => classify_single(node, Rule::UnaryExp { op, span: node.span }, builder),
                None => fail(builder),
            },
        },
    }
}

} // verus!
