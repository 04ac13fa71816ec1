use rholang_parser::ast::{
    BinaryExpOp, Bind, Collection, Id, LetBinding, Name, Proc, SendType, Source,
    SyncSendCont, UnaryExpOp, Var, VarRefKind,
};
use rholang_parser::cst::{field, kind, CstNode, Field, NodeKind};
use rholang_parser::parser::ast_builder::ASTBuilder;
use rholang_parser::parser::errors::{AnnParsingError, ParsingError, ParsingFailure};
use rholang_parser::parser::parsing::{node_to_ast, try_node_to_ast};
use rholang_parser::parser::RholangParser;
use rholang_parser::{SourcePos, SourceSpan};

fn span(l1: usize, c1: usize, l2: usize, c2: usize) -> SourceSpan {
    SourceSpan { start: SourcePos { line: l1, col: c1 }, end: SourcePos { line: l2, col: c2 } }
}

/// A span on line one.
fn on(c1: usize, c2: usize) -> SourceSpan {
    span(1, c1, 1, c2)
}

fn named(kind: NodeKind, grammar: &str, text: &str, sp: SourceSpan, children: Vec<CstNode>) -> CstNode {
    CstNode {
        kind,
        field: None,
        named: true,
        error: false,
        missing: false,
        span: sp,
        text: text.to_string(),
        grammar_name: grammar.to_string(),
        sexp: String::new(),
        children,
    }
}

fn tok(text: &str, sp: SourceSpan) -> CstNode {
    CstNode {
        kind: NodeKind::Other,
        field: None,
        named: false,
        error: false,
        missing: false,
        span: sp,
        text: text.to_string(),
        grammar_name: text.to_string(),
        sexp: String::new(),
        children: Vec::new(),
    }
}

fn under(f: Field, mut node: CstNode) -> CstNode {
    node.field = Some(f);
    node
}

fn var(name: &str, sp: SourceSpan) -> CstNode {
    named(NodeKind::Var, "var", name, sp, vec![])
}

fn nil(sp: SourceSpan) -> CstNode {
    named(NodeKind::Nil, "nil", "Nil", sp, vec![])
}

fn long(text: &str, sp: SourceSpan) -> CstNode {
    named(NodeKind::LongLiteral, "long_literal", text, sp, vec![])
}

fn block(inner: CstNode, sp: SourceSpan) -> CstNode {
    named(NodeKind::Block, "block", "", sp, vec![tok("{", sp), inner, tok("}", sp)])
}

fn error_node(sexp: &str, sp: SourceSpan, children: Vec<CstNode>) -> CstNode {
    let mut n = named(NodeKind::Error, "ERROR", "", sp, children);
    n.error = true;
    n.sexp = sexp.to_string();
    n
}

fn missing(grammar: &str, sp: SourceSpan) -> CstNode {
    let mut n = tok("", sp);
    n.grammar_name = grammar.to_string();
    n.missing = true;
    n
}

fn errors_of(failure: &ParsingFailure) -> Vec<AnnParsingError> {
    failure.errors.iter().cloned().collect()
}

fn var_proc<'a>(p: &'a Proc<'a>) -> &'a str {
    match p {
        Proc::ProcVar(Var::Id(id)) => id.name,
        other => panic!("not a variable: {:?}", other),
    }
}

// ---------------------------------------------------------------------------
// Scenarios
// ---------------------------------------------------------------------------

/// `new a, b, a in { Nil }`
fn new_with_decls(names: &[(&str, usize)]) -> CstNode {
    let mut decl_children = Vec::new();
    for (i, (name, col)) in names.iter().enumerate() {
        if i > 0 {
            decl_children.push(tok(",", on(*col - 2, *col - 1)));
        }
        decl_children.push(named(
            NodeKind::Other,
            "name_decl",
            name,
            on(*col, *col + 1),
            vec![var(name, on(*col, *col + 1))],
        ));
    }
    named(
        NodeKind::New,
        "new",
        "",
        on(1, 24),
        vec![
            tok("new", on(1, 4)),
            under(Field::Decls, named(NodeKind::Other, "name_decls", "", on(5, 12), decl_children)),
            tok("in", on(13, 15)),
            under(Field::Proc, block(nil(on(18, 21)), on(16, 24))),
        ],
    )
}

#[test]
fn duplicate_declaration_reports_the_earlier_place_first() {
    let builder = ASTBuilder::new();
    let tree = new_with_decls(&[("a", 5), ("b", 8), ("a", 11)]);
    let failure = try_node_to_ast(&tree, &builder).unwrap().unwrap_err();
    assert_eq!(
        errors_of(&failure),
        vec![AnnParsingError {
            error: ParsingError::DuplicateNameDecl {
                first: SourcePos { line: 1, col: 5 },
                second: SourcePos { line: 1, col: 11 },
            },
            span: on(5, 12),
        }]
    );
    let partial = failure.partial_tree.unwrap();
    assert_eq!(partial.span, on(1, 24));
    match partial.proc {
        Proc::New { decls, proc } => {
            let names: Vec<(&str, usize)> = decls.iter().map(|d| (d.id.name, d.id.pos.col)).collect();
            assert_eq!(names, vec![("a", 5), ("a", 11), ("b", 8)]);
            assert_eq!(*proc.proc, Proc::Nil);
            assert_eq!(proc.span, on(18, 21));
        }
        other => panic!("expected a new, got {:?}", other),
    }
}

#[test]
fn duplicate_declaration_order_does_not_depend_on_the_list() {
    let builder = ASTBuilder::new();
    let tree = new_with_decls(&[("b", 5), ("a", 8), ("a", 11)]);
    let failure = try_node_to_ast(&tree, &builder).unwrap().unwrap_err();
    assert_eq!(
        errors_of(&failure)[0].error,
        ParsingError::DuplicateNameDecl {
            first: SourcePos { line: 1, col: 8 },
            second: SourcePos { line: 1, col: 11 },
        }
    );

    // the first of two duplicated names in the order of the names is reported
    let builder = ASTBuilder::new();
    let tree = new_with_decls(&[("z", 5), ("z", 8), ("c", 11), ("c", 14)]);
    let failure = try_node_to_ast(&tree, &builder).unwrap().unwrap_err();
    assert_eq!(errors_of(&failure).len(), 1);
    assert_eq!(
        errors_of(&failure)[0].error,
        ParsingError::DuplicateNameDecl {
            first: SourcePos { line: 1, col: 11 },
            second: SourcePos { line: 1, col: 14 },
        }
    );
}

#[test]
fn distinct_declarations_parse_and_come_out_sorted() {
    let builder = ASTBuilder::new();
    let tree = new_with_decls(&[("b", 5), ("a", 8), ("ab", 11)]);
    let ast = node_to_ast(&tree, &builder).unwrap();
    match ast.proc {
        Proc::New { decls, .. } => {
            let names: Vec<&str> = decls.iter().map(|d| d.id.name).collect();
            assert_eq!(names, vec!["a", "ab", "b"]);
            assert!(decls.iter().all(|d| d.uri.is_none()));
        }
        other => panic!("expected a new, got {:?}", other),
    }
}

fn list_node(elements: Vec<CstNode>, remainder: Option<CstNode>) -> CstNode {
    let mut children = vec![tok("[", on(1, 2))];
    for e in elements {
        children.push(e);
        children.push(tok(",", on(1, 2)));
    }
    if let Some(r) = remainder {
        children.push(tok("...", on(1, 2)));
        children.push(under(Field::Remainder, r));
    }
    children.push(tok("]", on(1, 2)));
    named(
        NodeKind::Collection,
        "collection",
        "",
        on(1, 30),
        vec![named(NodeKind::List, "list", "", on(1, 30), children)],
    )
}

#[test]
fn list_with_remainder_splits_the_remainder_off() {
    let builder = ASTBuilder::new();
    let tree = list_node(vec![long("1", on(2, 3)), long("2", on(5, 6))], Some(var("rest", on(11, 15))));
    let ast = node_to_ast(&tree, &builder).unwrap();
    match ast.proc {
        Proc::Collection(Collection::List { elements, remainder }) => {
            assert_eq!(elements.len(), 2);
            assert_eq!(*elements[0].proc, Proc::LongLiteral(1));
            assert_eq!(*elements[1].proc, Proc::LongLiteral(2));
            assert_eq!(elements[1].span, on(5, 6));
            assert_eq!(
                *remainder,
                Some(Var::Id(Id { name: "rest", pos: SourcePos { line: 1, col: 11 } }))
            );
        }
        other => panic!("expected a list, got {:?}", other),
    }
}

#[test]
fn list_without_remainder_keeps_every_element() {
    let builder = ASTBuilder::new();
    let tree = list_node(vec![long("1", on(2, 3)), long("2", on(5, 6)), long("3", on(8, 9))], None);
    let ast = node_to_ast(&tree, &builder).unwrap();
    match ast.proc {
        Proc::Collection(Collection::List { elements, remainder }) => {
            let values: Vec<Proc> = elements.iter().map(|e| e.proc.clone()).collect();
            assert_eq!(values, vec![Proc::LongLiteral(1), Proc::LongLiteral(2), Proc::LongLiteral(3)]);
            assert!(remainder.is_none());
        }
        other => panic!("expected a list, got {:?}", other),
    }
}

#[test]
fn lists_of_every_length_leave_one_process() {
    for n in [0usize, 1, 2, 7, 40] {
        let builder = ASTBuilder::new();
        let elements = (0..n).map(|i| long(&i.to_string(), on(i + 2, i + 3))).collect();
        let tree = list_node(elements, None);
        let ast = node_to_ast(&tree, &builder).unwrap();
        match ast.proc {
            Proc::Collection(Collection::List { elements, remainder }) => {
                assert_eq!(elements.len(), n);
                for (i, e) in elements.iter().enumerate() {
                    assert_eq!(*e.proc, Proc::LongLiteral(i as i64));
                }
                assert!(remainder.is_none());
            }
            other => panic!("expected a list, got {:?}", other),
        }
    }
}

#[test]
fn list_whose_remainder_is_no_variable_has_no_shape() {
    let builder = ASTBuilder::new();
    let tree = list_node(vec![long("1", on(2, 3))], Some(nil(on(8, 11))));
    assert!(try_node_to_ast(&tree, &builder).is_none());
}

fn par(left: CstNode, right: CstNode, sp: SourceSpan) -> CstNode {
    named(NodeKind::Par, "par", "", sp, vec![left, tok("|", sp), right])
}

#[test]
fn number_out_of_range_leaves_a_placeholder_and_the_other_branch() {
    let builder = ASTBuilder::new();
    let tree = par(long("99999999999999999999", on(1, 21)), nil(on(24, 27)), on(1, 27));
    let failure = try_node_to_ast(&tree, &builder).unwrap().unwrap_err();
    assert_eq!(
        errors_of(&failure),
        vec![AnnParsingError { error: ParsingError::NumberOutOfRange, span: on(1, 21) }]
    );
    let partial = failure.partial_tree.unwrap();
    match partial.proc {
        Proc::Par { left, right } => {
            assert_eq!(*left.proc, Proc::Bad);
            assert_eq!(left.span, on(1, 21));
            assert_eq!(*right.proc, Proc::Nil);
            assert_eq!(right.span, on(24, 27));
        }
        other => panic!("expected a par, got {:?}", other),
    }
}

#[test]
fn integer_literals_at_the_limits() {
    let cases: Vec<(&str, Option<i64>)> = vec![
        ("0", Some(0)),
        ("1", Some(1)),
        ("007", Some(7)),
        ("-5", Some(-5)),
        ("+5", Some(5)),
        ("9223372036854775807", Some(i64::MAX)),
        ("-9223372036854775808", Some(i64::MIN)),
        ("9223372036854775808", None),
        ("-9223372036854775809", None),
        ("", None),
        ("-", None),
        ("+", None),
        ("12a", None),
        (" 1", None),
        ("--1", None),
    ];
    for (text, want) in cases {
        let builder = ASTBuilder::new();
        let tree = long(text, on(1, 2));
        let got = try_node_to_ast(&tree, &builder).unwrap();
        match want {
            Some(v) => {
                let ast = got.unwrap();
                assert_eq!(*ast.proc, Proc::LongLiteral(v), "for {:?}", text);
            }
            None => {
                let failure = got.unwrap_err();
                assert_eq!(errors_of(&failure)[0].error, ParsingError::NumberOutOfRange);
                assert_eq!(*failure.partial_tree.unwrap().proc, Proc::Bad);
            }
        }
    }
}

/// `let <names> <- <values> in { Nil }`
fn let_node(names: Vec<CstNode>, cont: Option<CstNode>, values: Vec<CstNode>, conc: bool) -> CstNode {
    let mut lhs_children = names;
    if let Some(c) = cont {
        lhs_children.push(tok("...", on(1, 2)));
        lhs_children.push(under(Field::Cont, c));
    }
    let decl = named(
        NodeKind::Other,
        "decl",
        "",
        on(5, 14),
        vec![
            named(NodeKind::Other, "names", "", on(5, 9), lhs_children),
            tok("<-", on(10, 12)),
            named(NodeKind::Other, "procs", "", on(13, 14), values),
        ],
    );
    let decls = if conc {
        named(NodeKind::ConcDecls, "conc_decls", "", on(5, 14), vec![decl])
    } else {
        named(NodeKind::Other, "linear_decls", "", on(5, 14), vec![decl])
    };
    named(
        NodeKind::Let,
        "let",
        "",
        on(1, 26),
        vec![
            tok("let", on(1, 4)),
            under(Field::Decls, decls),
            tok("in", on(15, 17)),
            under(Field::Proc, block(nil(on(20, 23)), on(18, 26))),
        ],
    )
}

#[test]
fn let_arity_mismatch_is_recorded_and_the_tree_still_built() {
    let builder = ASTBuilder::new();
    let tree = let_node(vec![var("x", on(5, 6)), var("y", on(8, 9))], None, vec![long("1", on(13, 14))], false);
    let failure = try_node_to_ast(&tree, &builder).unwrap().unwrap_err();
    assert_eq!(
        errors_of(&failure),
        vec![AnnParsingError {
            error: ParsingError::MalformedLetDecl { lhs_arity: 2, rhs_arity: 1 },
            span: on(5, 14),
        }]
    );
    match failure.partial_tree.unwrap().proc {
        Proc::Let { bindings, body, concurrent } => {
            assert!(!*concurrent);
            assert_eq!(*body.proc, Proc::Nil);
            assert_eq!(bindings.len(), 1);
            match &bindings[0] {
                LetBinding::Single { lhs, rhs } => {
                    assert_eq!(
                        lhs.name,
                        Name::ProcVar(Var::Id(Id { name: "x", pos: SourcePos { line: 1, col: 5 } }))
                    );
                    assert_eq!(*rhs.proc, Proc::LongLiteral(1));
                }
                other => panic!("expected a single binding, got {:?}", other),
            }
        }
        other => panic!("expected a let, got {:?}", other),
    }
}

#[test]
fn let_with_remainder_takes_the_rest() {
    let builder = ASTBuilder::new();
    let tree = let_node(
        vec![var("x", on(5, 6))],
        Some(var("r", on(8, 9))),
        vec![long("1", on(13, 14)), long("2", on(13, 14)), long("3", on(13, 14))],
        true,
    );
    let ast = node_to_ast(&tree, &builder).unwrap();
    match ast.proc {
        Proc::Let { bindings, concurrent, .. } => {
            assert!(*concurrent);
            assert_eq!(bindings.len(), 2);
            match &bindings[0] {
                LetBinding::Single { rhs, .. } => assert_eq!(*rhs.proc, Proc::LongLiteral(1)),
                other => panic!("expected a single binding, got {:?}", other),
            }
            match &bindings[1] {
                LetBinding::Multiple { lhs, rhs } => {
                    assert_eq!(*lhs, Var::Id(Id { name: "r", pos: SourcePos { line: 1, col: 8 } }));
                    let values: Vec<Proc> = rhs.iter().map(|e| e.proc.clone()).collect();
                    assert_eq!(values, vec![Proc::LongLiteral(2), Proc::LongLiteral(3)]);
                }
                other => panic!("expected a multiple binding, got {:?}", other),
            }
        }
        other => panic!("expected a let, got {:?}", other),
    }
}

#[test]
fn let_with_as_many_values_as_names_has_no_error() {
    let builder = ASTBuilder::new();
    let tree = let_node(
        vec![var("x", on(5, 6)), var("y", on(8, 9))],
        None,
        vec![long("1", on(13, 14)), long("2", on(13, 14))],
        false,
    );
    let ast = node_to_ast(&tree, &builder).unwrap();
    match ast.proc {
        Proc::Let { bindings, .. } => assert_eq!(bindings.len(), 2),
        other => panic!("expected a let, got {:?}", other),
    }
}

#[test]
fn let_with_more_names_than_values_and_a_remainder_is_malformed() {
    let builder = ASTBuilder::new();
    let tree = let_node(
        vec![var("x", on(5, 6)), var("y", on(6, 7))],
        Some(var("r", on(8, 9))),
        vec![long("1", on(13, 14))],
        false,
    );
    let failure = try_node_to_ast(&tree, &builder).unwrap().unwrap_err();
    assert_eq!(
        errors_of(&failure)[0].error,
        ParsingError::MalformedLetDecl { lhs_arity: 3, rhs_arity: 1 }
    );
}

/// `new stdout(`rho:io:stdout`) in { stdout!("Hello, world!") }`
fn hello_world() -> CstNode {
    let decl = named(
        NodeKind::Other,
        "name_decl",
        "stdout(`rho:io:stdout`)",
        on(5, 28),
        vec![
            var("stdout", on(5, 11)),
            tok("(", on(11, 12)),
            under(
                Field::Uri,
                named(NodeKind::UriLiteral, "uri_literal", "`rho:io:stdout`", on(12, 27), vec![]),
            ),
            tok(")", on(27, 28)),
        ],
    );
    let send = named(
        NodeKind::Send,
        "send",
        "",
        on(34, 58),
        vec![
            under(Field::Channel, var("stdout", on(34, 40))),
            under(Field::SendType, named(NodeKind::SendSingle, "send_single", "!", on(40, 41), vec![])),
            under(
                Field::Inputs,
                named(
                    NodeKind::Other,
                    "inputs",
                    "",
                    on(41, 58),
                    vec![
                        tok("(", on(41, 42)),
                        named(
                            NodeKind::StringLiteral,
                            "string_literal",
                            "\"Hello, world!\"",
                            on(42, 57),
                            vec![],
                        ),
                        tok(")", on(57, 58)),
                    ],
                ),
            ),
        ],
    );
    named(
        NodeKind::New,
        "new",
        "",
        on(1, 60),
        vec![
            tok("new", on(1, 4)),
            under(Field::Decls, named(NodeKind::Other, "name_decls", "", on(5, 28), vec![decl])),
            tok("in", on(29, 31)),
            under(Field::Proc, block(send, on(32, 60))),
        ],
    )
}

#[test]
fn hello_world_parses_without_errors() {
    let builder = ASTBuilder::new();
    let tree = hello_world();
    let ast = try_node_to_ast(&tree, &builder).unwrap().unwrap();
    assert_eq!(ast.span, on(1, 60));
    match ast.proc {
        Proc::New { decls, proc } => {
            assert_eq!(decls.len(), 1);
            assert_eq!(decls[0].id.name, "stdout");
            assert_eq!(decls[0].id.pos, SourcePos { line: 1, col: 5 });
            assert_eq!(decls[0].uri.unwrap().as_str(), "rho:io:stdout");
            assert_eq!(proc.span, on(34, 58));
            match proc.proc {
                Proc::Send { channel, send_type, inputs } => {
                    assert_eq!(*send_type, SendType::Single);
                    assert_eq!(
                        channel.name,
                        Name::ProcVar(Var::Id(Id { name: "stdout", pos: SourcePos { line: 1, col: 34 } }))
                    );
                    assert_eq!(channel.span, on(34, 40));
                    assert_eq!(inputs.len(), 1);
                    assert_eq!(*inputs[0].proc, Proc::StringLiteral("Hello, world!"));
                }
                other => panic!("expected a send, got {:?}", other),
            }
        }
        other => panic!("expected a new, got {:?}", other),
    }
}

#[test]
fn parsing_twice_gives_the_same_tree_and_errors() {
    let tree = new_with_decls(&[("a", 5), ("b", 8), ("a", 11)]);
    let first_builder = ASTBuilder::new();
    let second_builder = ASTBuilder::with_capacity(1);
    let first = try_node_to_ast(&tree, &first_builder);
    let second = try_node_to_ast(&tree, &second_builder);
    assert_eq!(first, second);

    let tree = hello_world();
    let first = try_node_to_ast(&tree, &first_builder);
    let second = try_node_to_ast(&tree, &second_builder);
    assert_eq!(first, second);
    assert!(first.unwrap().is_ok());
}

#[test]
fn unbalanced_braces_go_through_the_error_path() {
    // `new x in { Nil` with the closing brace missing
    let builder = ASTBuilder::new();
    let body = named(
        NodeKind::Block,
        "block",
        "",
        on(10, 15),
        vec![tok("{", on(10, 11)), nil(on(12, 15)), missing("}", on(15, 15))],
    );
    let tree = named(
        NodeKind::New,
        "new",
        "",
        on(1, 15),
        vec![
            tok("new", on(1, 4)),
            under(
                Field::Decls,
                named(
                    NodeKind::Other,
                    "name_decls",
                    "",
                    on(5, 6),
                    vec![named(NodeKind::Other, "name_decl", "x", on(5, 6), vec![var("x", on(5, 6))])],
                ),
            ),
            tok("in", on(7, 9)),
            under(Field::Proc, body),
        ],
    );
    let failure = try_node_to_ast(&tree, &builder).unwrap().unwrap_err();
    assert_eq!(
        errors_of(&failure),
        vec![AnnParsingError { error: ParsingError::MissingToken("}".to_string()), span: on(15, 15) }]
    );
    match failure.partial_tree.unwrap().proc {
        Proc::New { proc, .. } => assert_eq!(*proc.proc, Proc::Nil),
        other => panic!("expected a new, got {:?}", other),
    }
}

#[test]
fn error_nodes_become_placeholders_and_are_reported_once() {
    // a par whose right side could not be read: an error node around an
    // unexpected character
    let builder = ASTBuilder::new();
    let mut unexpected = error_node("(UNEXPECTED '#')", on(7, 8), vec![]);
    unexpected.text = "#".to_string();
    let broken = error_node("(ERROR (UNEXPECTED '#'))", on(7, 8), vec![unexpected]);
    let tree = par(nil(on(1, 4)), broken, on(1, 8));
    let failure = try_node_to_ast(&tree, &builder).unwrap().unwrap_err();
    assert_eq!(
        errors_of(&failure),
        vec![AnnParsingError { error: ParsingError::Unexpected('#'), span: on(7, 8) }]
    );
    match failure.partial_tree.unwrap().proc {
        Proc::Par { left, right } => {
            assert_eq!(*left.proc, Proc::Nil);
            assert_eq!(*right.proc, Proc::Bad);
            assert_eq!(right.span, on(7, 8));
        }
        other => panic!("expected a par, got {:?}", other),
    }
}

#[test]
fn error_node_with_a_variable_reports_the_variable() {
    let builder = ASTBuilder::new();
    let broken = error_node("(ERROR (var))", on(7, 10), vec![var("foo", on(7, 10))]);
    let tree = par(nil(on(1, 4)), broken, on(1, 10));
    let failure = try_node_to_ast(&tree, &builder).unwrap().unwrap_err();
    assert_eq!(
        errors_of(&failure),
        vec![AnnParsingError { error: ParsingError::UnexpectedVar("foo".to_string()), span: on(7, 10) }]
    );
}

#[test]
fn error_node_without_more_is_a_syntax_error_with_its_shape() {
    let builder = ASTBuilder::new();
    let broken = error_node("(ERROR (nil) (nil))", on(1, 9), vec![nil(on(1, 4)), nil(on(5, 8))]);
    let failure = try_node_to_ast(&broken, &builder).unwrap().unwrap_err();
    assert_eq!(
        errors_of(&failure),
        vec![AnnParsingError {
            error: ParsingError::SyntaxError { sexp: "(ERROR (nil) (nil))".to_string() },
            span: on(1, 9),
        }]
    );
    assert_eq!(*failure.partial_tree.unwrap().proc, Proc::Bad);
}

#[test]
fn semantic_errors_come_before_syntax_errors() {
    let builder = ASTBuilder::new();
    let tree = par(
        missing("var", on(1, 1)),
        long("99999999999999999999", on(3, 23)),
        on(1, 23),
    );
    // the missing token is no named child, so the par has only one
    assert!(try_node_to_ast(&tree, &builder).is_none());

    let mut lost = var("", on(1, 1));
    lost.missing = true;
    let tree = par(lost, long("99999999999999999999", on(3, 23)), on(1, 23));
    let failure = try_node_to_ast(&tree, &builder).unwrap().unwrap_err();
    assert_eq!(
        errors_of(&failure),
        vec![
            AnnParsingError { error: ParsingError::NumberOutOfRange, span: on(3, 23) },
            AnnParsingError { error: ParsingError::MissingToken("var".to_string()), span: on(1, 1) },
        ]
    );
}

// ---------------------------------------------------------------------------
// Constructs
// ---------------------------------------------------------------------------

fn bind(kind: NodeKind, names: Vec<CstNode>, source: CstNode) -> CstNode {
    named(
        kind,
        "bind",
        "",
        on(6, 12),
        vec![named(NodeKind::Other, "names", "", on(6, 7), names), tok("<-", on(8, 10)), source],
    )
}

fn for_node(binds: Vec<Vec<CstNode>>) -> CstNode {
    let receipts = binds
        .into_iter()
        .map(|bs| named(NodeKind::Other, "receipt", "", on(6, 12), bs))
        .collect();
    named(
        NodeKind::Input,
        "input",
        "",
        on(1, 22),
        vec![
            tok("for", on(1, 4)),
            under(Field::Receipts, named(NodeKind::Other, "receipts", "", on(6, 12), receipts)),
            under(Field::Proc, block(nil(on(16, 19)), on(14, 22))),
        ],
    )
}

#[test]
fn for_comprehension_with_a_simple_source() {
    let builder = ASTBuilder::new();
    let source = named(NodeKind::SimpleSource, "simple_source", "", on(11, 12), vec![var("y", on(11, 12))]);
    let tree = for_node(vec![vec![bind(NodeKind::LinearBind, vec![var("x", on(6, 7))], source)]]);
    let ast = node_to_ast(&tree, &builder).unwrap();
    match ast.proc {
        Proc::ForComprehension { receipts, proc } => {
            assert_eq!(*proc.proc, Proc::Nil);
            assert_eq!(receipts.len(), 1);
            assert_eq!(receipts[0].binds.len(), 1);
            match &receipts[0].binds[0] {
                Bind::Linear { lhs, rhs } => {
                    assert_eq!(lhs.names.len(), 1);
                    assert!(lhs.remainder.is_none());
                    assert_eq!(
                        lhs.names[0].name,
                        Name::ProcVar(Var::Id(Id { name: "x", pos: SourcePos { line: 1, col: 6 } }))
                    );
                    match rhs {
                        Source::Simple { name } => assert_eq!(
                            name.name,
                            Name::ProcVar(Var::Id(Id { name: "y", pos: SourcePos { line: 1, col: 11 } }))
                        ),
                        other => panic!("expected a simple source, got {:?}", other),
                    }
                }
                other => panic!("expected a linear bind, got {:?}", other),
            }
        }
        other => panic!("expected a for-comprehension, got {:?}", other),
    }
}

#[test]
fn for_comprehension_with_a_send_receive_source_counts_the_channel() {
    let builder = ASTBuilder::new();
    let source = named(
        NodeKind::SendReceiveSource,
        "send_receive_source",
        "",
        on(11, 20),
        vec![
            var("y", on(11, 12)),
            tok("!?", on(12, 14)),
            under(
                Field::Inputs,
                named(NodeKind::Other, "inputs", "", on(14, 20), vec![long("1", on(15, 16)), long("2", on(18, 19))]),
            ),
        ],
    );
    let peek_source = var("z", on(30, 31));
    let tree = for_node(vec![
        vec![
            bind(NodeKind::LinearBind, vec![var("a", on(6, 7)), var("b", on(7, 8))], source),
            bind(NodeKind::PeekBind, vec![var("c", on(6, 7))], peek_source),
        ],
        vec![bind(NodeKind::RepeatedBind, vec![var("d", on(6, 7))], var("w", on(40, 41)))],
    ]);
    let ast = node_to_ast(&tree, &builder).unwrap();
    match ast.proc {
        Proc::ForComprehension { receipts, .. } => {
            assert_eq!(receipts.len(), 2);
            assert_eq!(receipts[0].binds.len(), 2);
            match &receipts[0].binds[0] {
                Bind::Linear { lhs, rhs } => {
                    assert_eq!(lhs.names.len(), 2);
                    match rhs {
                        Source::SendReceive { name, inputs } => {
                            assert_eq!(
                                name.name,
                                Name::ProcVar(Var::Id(Id { name: "y", pos: SourcePos { line: 1, col: 11 } }))
                            );
                            let values: Vec<Proc> = inputs.iter().map(|e| e.proc.clone()).collect();
                            assert_eq!(values, vec![Proc::LongLiteral(1), Proc::LongLiteral(2)]);
                        }
                        other => panic!("expected a send-receive source, got {:?}", other),
                    }
                }
                other => panic!("expected a linear bind, got {:?}", other),
            }
            match &receipts[0].binds[1] {
                Bind::Peek { lhs, rhs } => {
                    assert_eq!(lhs.names.len(), 1);
                    assert_eq!(
                        rhs.name,
                        Name::ProcVar(Var::Id(Id { name: "z", pos: SourcePos { line: 1, col: 30 } }))
                    );
                }
                other => panic!("expected a peek bind, got {:?}", other),
            }
            match &receipts[1].binds[0] {
                Bind::Repeated { rhs, .. } => assert_eq!(
                    rhs.name,
                    Name::ProcVar(Var::Id(Id { name: "w", pos: SourcePos { line: 1, col: 40 } }))
                ),
                other => panic!("expected a repeated bind, got {:?}", other),
            }
        }
        other => panic!("expected a for-comprehension, got {:?}", other),
    }
}

fn map_node(pairs: Vec<(CstNode, CstNode)>, remainder: Option<CstNode>) -> CstNode {
    let mut children = vec![tok("{", on(1, 2))];
    for (k, v) in pairs {
        children.push(named(
            NodeKind::KeyValuePair,
            "key_value_pair",
            "",
            on(2, 6),
            vec![under(Field::Key, k), tok(":", on(3, 4)), under(Field::Value, v)],
        ));
    }
    if let Some(r) = remainder {
        children.push(under(Field::Remainder, r));
    }
    children.push(tok("}", on(9, 10)));
    named(
        NodeKind::Collection,
        "collection",
        "",
        on(1, 10),
        vec![named(NodeKind::MapOf, "map", "", on(1, 10), children)],
    )
}

#[test]
fn maps_pair_keys_with_values() {
    for n in [0usize, 1, 3] {
        let builder = ASTBuilder::new();
        let pairs = (0..n)
            .map(|i| (long(&(2 * i).to_string(), on(2, 3)), long(&(2 * i + 1).to_string(), on(4, 5))))
            .collect();
        let tree = map_node(pairs, None);
        let ast = node_to_ast(&tree, &builder).unwrap();
        match ast.proc {
            Proc::Collection(Collection::MapOf { elements, remainder }) => {
                assert_eq!(elements.len(), n);
                for (i, (k, v)) in elements.iter().enumerate() {
                    assert_eq!(*k.proc, Proc::LongLiteral(2 * i as i64));
                    assert_eq!(*v.proc, Proc::LongLiteral(2 * i as i64 + 1));
                }
                assert!(remainder.is_none());
            }
            other => panic!("expected a map, got {:?}", other),
        }
    }
}

#[test]
fn map_with_remainder() {
    let builder = ASTBuilder::new();
    let tree = map_node(vec![(long("1", on(2, 3)), long("2", on(4, 5)))], Some(var("rest", on(7, 11))));
    let ast = node_to_ast(&tree, &builder).unwrap();
    match ast.proc {
        Proc::Collection(Collection::MapOf { elements, remainder }) => {
            assert_eq!(elements.len(), 1);
            assert_eq!(*elements[0].0.proc, Proc::LongLiteral(1));
            assert_eq!(*elements[0].1.proc, Proc::LongLiteral(2));
            assert_eq!(*remainder, Some(Var::Id(Id { name: "rest", pos: SourcePos { line: 1, col: 7 } })));
        }
        other => panic!("expected a map, got {:?}", other),
    }
}

#[test]
fn leaves_become_their_processes() {
    let builder = ASTBuilder::new();
    let cases: Vec<(CstNode, Proc)> = vec![
        (nil(on(1, 4)), Proc::Nil),
        (named(NodeKind::Unit, "unit", "()", on(1, 3), vec![]), Proc::Unit),
        (named(NodeKind::Wildcard, "wildcard", "_", on(1, 2), vec![]), Proc::ProcVar(Var::Wildcard)),
        (named(NodeKind::BoolLiteral, "bool_literal", "true", on(1, 5), vec![]), Proc::BoolLiteral(true)),
        (named(NodeKind::BoolLiteral, "bool_literal", "false", on(1, 6), vec![]), Proc::BoolLiteral(false)),
        (
            named(NodeKind::StringLiteral, "string_literal", "\"\"a\"b\"\"", on(1, 6), vec![]),
            Proc::StringLiteral("a\"b"),
        ),
        (
            var("x", on(3, 4)),
            Proc::ProcVar(Var::Id(Id { name: "x", pos: SourcePos { line: 1, col: 3 } })),
        ),
    ];
    for (node, want) in cases {
        let builder = ASTBuilder::new();
        let ast = node_to_ast(&node, &builder).unwrap();
        assert_eq!(*ast.proc, want);
        assert_eq!(ast.span, node.span);
    }
    let node = named(NodeKind::BoolLiteral, "bool_literal", "maybe", on(1, 6), vec![]);
    assert!(try_node_to_ast(&node, &builder).is_none());
}

#[test]
fn a_block_is_its_content() {
    let builder = ASTBuilder::new();
    let tree = block(block(nil(on(5, 8)), on(3, 10)), on(1, 12));
    let ast = node_to_ast(&tree, &builder).unwrap();
    assert_eq!(*ast.proc, Proc::Nil);
    assert_eq!(ast.span, on(5, 8));
}

#[test]
fn operators_keep_their_operands_in_order() {
    let builder = ASTBuilder::new();
    let sum = named(
        NodeKind::Add,
        "add",
        "",
        on(1, 6),
        vec![long("1", on(1, 2)), tok("+", on(3, 4)), long("2", on(5, 6))],
    );
    let neg = named(NodeKind::Neg, "neg", "", on(1, 8), vec![tok("-", on(1, 2)), sum]);
    let ast = node_to_ast(&neg, &builder).unwrap();
    match ast.proc {
        Proc::UnaryExp { op, arg } => {
            assert_eq!(*op, UnaryExpOp::Neg);
            match arg {
                Proc::BinaryExp { op, left, right } => {
                    assert_eq!(*op, BinaryExpOp::Add);
                    assert_eq!(*left.proc, Proc::LongLiteral(1));
                    assert_eq!(*right.proc, Proc::LongLiteral(2));
                }
                other => panic!("expected a sum, got {:?}", other),
            }
        }
        other => panic!("expected a negation, got {:?}", other),
    }
}

#[test]
fn deep_nesting_needs_no_deep_recursion() {
    let builder = ASTBuilder::new();
    let mut tree = nil(on(1, 4));
    for _ in 0..200000 {
        tree = named(NodeKind::Not, "not", "", on(1, 4), vec![tree]);
    }
    let ast = node_to_ast(&tree, &builder).unwrap();
    let mut depth = 0;
    let mut at = ast.proc;
    while let Proc::UnaryExp { arg, .. } = at {
        depth += 1;
        at = *arg;
    }
    assert_eq!(depth, 200000);
    assert_eq!(*at, Proc::Nil);
    tree.dismantle();
}

#[test]
fn send_sync_with_and_without_continuation() {
    let builder = ASTBuilder::new();
    let make = |cont: CstNode| {
        named(
            NodeKind::SendSync,
            "send_sync",
            "",
            on(1, 20),
            vec![
                under(Field::Channel, var("ch", on(1, 3))),
                under(
                    Field::Inputs,
                    named(NodeKind::Other, "messages", "", on(5, 9), vec![long("1", on(6, 7)), long("2", on(8, 9))]),
                ),
                under(Field::Cont, named(NodeKind::Other, "sync_send_cont", "", on(10, 20), vec![cont])),
            ],
        )
    };
    let empty = make(named(NodeKind::EmptyCont, "empty_cont", ".", on(10, 11), vec![]));
    match node_to_ast(&empty, &builder).unwrap().proc {
        Proc::SendSync { messages, cont, .. } => {
            assert_eq!(messages.len(), 2);
            assert_eq!(*cont, SyncSendCont::Empty);
        }
        other => panic!("expected a synchronous send, got {:?}", other),
    }
    let then = make(named(NodeKind::NonEmptyCont, "non_empty_cont", "", on(10, 20), vec![nil(on(12, 15))]));
    match node_to_ast(&then, &builder).unwrap().proc {
        Proc::SendSync { channel, messages, cont } => {
            assert_eq!(
                channel.name,
                Name::ProcVar(Var::Id(Id { name: "ch", pos: SourcePos { line: 1, col: 1 } }))
            );
            let values: Vec<Proc> = messages.iter().map(|e| e.proc.clone()).collect();
            assert_eq!(values, vec![Proc::LongLiteral(1), Proc::LongLiteral(2)]);
            match cont {
                SyncSendCont::NonEmpty(p) => {
                    assert_eq!(*p.proc, Proc::Nil);
                    assert_eq!(p.span, on(12, 15));
                }
                other => panic!("expected a continuation, got {:?}", other),
            }
        }
        other => panic!("expected a synchronous send, got {:?}", other),
    }
}

#[test]
fn contract_if_match_method_and_var_ref() {
    let builder = ASTBuilder::new();
    let contract = named(
        NodeKind::Contract,
        "contract",
        "",
        on(1, 30),
        vec![
            under(Field::Name, var("add", on(10, 13))),
            under(
                Field::Formals,
                named(
                    NodeKind::Other,
                    "names",
                    "",
                    on(14, 20),
                    vec![var("a", on(14, 15)), under(Field::Cont, var("rest", on(16, 20)))],
                ),
            ),
            under(Field::Proc, block(nil(on(24, 27)), on(22, 30))),
        ],
    );
    match node_to_ast(&contract, &builder).unwrap().proc {
        Proc::Contract { name, formals, body } => {
            assert_eq!(name.span, on(10, 13));
            assert_eq!(formals.names.len(), 1);
            assert_eq!(formals.remainder, Some(Var::Id(Id { name: "rest", pos: SourcePos { line: 1, col: 16 } })));
            assert_eq!(*body.proc, Proc::Nil);
        }
        other => panic!("expected a contract, got {:?}", other),
    }

    let if_else = named(
        NodeKind::IfElse,
        "ifElse",
        "",
        on(1, 30),
        vec![
            under(Field::Condition, named(NodeKind::BoolLiteral, "bool_literal", "true", on(4, 8), vec![])),
            under(Field::Consequence, long("1", on(10, 11))),
            under(Field::Alternative, long("2", on(20, 21))),
        ],
    );
    match node_to_ast(&if_else, &builder).unwrap().proc {
        Proc::IfThenElse { condition, if_true, if_false } => {
            assert_eq!(*condition.proc, Proc::BoolLiteral(true));
            assert_eq!(*if_true.proc, Proc::LongLiteral(1));
            assert_eq!(*if_false.unwrap().proc, Proc::LongLiteral(2));
        }
        other => panic!("expected a conditional, got {:?}", other),
    }

    let case = |p: &str, b: &str| {
        named(
            NodeKind::Case,
            "case",
            "",
            on(1, 2),
            vec![under(Field::Pattern, long(p, on(1, 2))), under(Field::Proc, long(b, on(1, 2)))],
        )
    };
    let matching = named(
        NodeKind::Match,
        "match",
        "",
        on(1, 30),
        vec![
            under(Field::Expression, var("x", on(7, 8))),
            under(Field::Cases, named(NodeKind::Other, "cases", "", on(10, 30), vec![case("1", "10"), case("2", "20")])),
        ],
    );
    match node_to_ast(&matching, &builder).unwrap().proc {
        Proc::Match { expression, cases } => {
            assert_eq!(var_proc(expression.proc), "x");
            let pairs: Vec<(Proc, Proc)> =
                cases.iter().map(|c| (c.pattern.proc.clone(), c.proc.proc.clone())).collect();
            assert_eq!(
                pairs,
                vec![
                    (Proc::LongLiteral(1), Proc::LongLiteral(10)),
                    (Proc::LongLiteral(2), Proc::LongLiteral(20)),
                ]
            );
        }
        other => panic!("expected a match, got {:?}", other),
    }

    let method = named(
        NodeKind::Method,
        "method",
        "",
        on(1, 12),
        vec![
            under(Field::Receiver, var("xs", on(1, 3))),
            under(Field::Name, var("nth", on(4, 7))),
            under(Field::Args, named(NodeKind::Other, "args", "", on(7, 10), vec![long("0", on(8, 9))])),
        ],
    );
    match node_to_ast(&method, &builder).unwrap().proc {
        Proc::Method { receiver, name, args } => {
            assert_eq!(var_proc(receiver.proc), "xs");
            assert_eq!(*name, Id { name: "nth", pos: SourcePos { line: 1, col: 4 } });
            assert_eq!(args.len(), 1);
        }
        other => panic!("expected a method call, got {:?}", other),
    }

    let var_ref = |marker: &str| {
        named(
            NodeKind::VarRef,
            "var_ref",
            "",
            on(1, 4),
            vec![
                named(
                    NodeKind::Other,
                    "var_ref_kind",
                    marker,
                    on(1, 2),
                    vec![named(NodeKind::Other, marker, marker, on(1, 2), vec![])],
                ),
                var("x", on(3, 4)),
            ],
        )
    };
    let proc_ref = var_ref("=");
    let name_ref = var_ref("=*");
    match node_to_ast(&proc_ref, &builder).unwrap().proc {
        Proc::VarRef { kind, var } => {
            assert_eq!(*kind, VarRefKind::Proc);
            assert_eq!(var.name, "x");
        }
        other => panic!("expected a variable reference, got {:?}", other),
    }
    match node_to_ast(&name_ref, &builder).unwrap().proc {
        Proc::VarRef { kind, .. } => assert_eq!(*kind, VarRefKind::Name),
        other => panic!("expected a variable reference, got {:?}", other),
    }
}

#[test]
fn quote_and_eval_narrow_processes_to_names() {
    let builder = ASTBuilder::new();
    let quote = named(NodeKind::Quote, "quote", "", on(1, 5), vec![tok("@", on(1, 2)), nil(on(2, 5))]);
    let eval = named(NodeKind::Eval, "eval", "", on(1, 6), vec![tok("*", on(1, 2)), quote]);
    match node_to_ast(&eval, &builder).unwrap().proc {
        Proc::Eval { name } => match name.name {
            Name::Quote(p) => assert_eq!(*p, Proc::Nil),
            other => panic!("expected a quote, got {:?}", other),
        },
        other => panic!("expected an eval, got {:?}", other),
    }
    // an eval of something that is no name has no shape
    let eval = named(NodeKind::Eval, "eval", "", on(1, 6), vec![tok("*", on(1, 2)), nil(on(2, 5))]);
    assert!(try_node_to_ast(&eval, &builder).is_none());
}

#[test]
fn a_program_is_parsed_process_by_process() {
    let parser = RholangParser::new();
    let root = named(
        NodeKind::Other,
        "source_file",
        "",
        span(1, 1, 3, 1),
        vec![nil(span(1, 1, 1, 4)), tok(";", span(1, 4, 1, 5)), long("7", span(2, 1, 2, 2))],
    );
    let trees = parser.parse(&root).unwrap().unwrap();
    assert_eq!(trees.len(), 2);
    assert_eq!(*trees[0].proc, Proc::Nil);
    assert_eq!(*trees[1].proc, Proc::LongLiteral(7));

    let parser = RholangParser::new();
    let root = named(
        NodeKind::Other,
        "source_file",
        "",
        span(1, 1, 3, 1),
        vec![long("99999999999999999999", span(1, 1, 1, 21)), long("x", span(2, 1, 2, 2))],
    );
    let errors = parser.parse(&root).unwrap().unwrap_err();
    let kinds: Vec<ParsingError> = errors.iter().map(|e| e.error.clone()).collect();
    assert_eq!(kinds, vec![ParsingError::NumberOutOfRange, ParsingError::NumberOutOfRange]);

    let parser = RholangParser::new();
    assert_eq!(parser.capacity(), 64);
    let root = named(NodeKind::Other, "source_file", "", span(1, 1, 1, 1), vec![]);
    assert_eq!(parser.parse(&root).unwrap().unwrap().len(), 0);
}

#[test]
fn kinds_and_fields_by_name() {
    assert_eq!(kind("new"), NodeKind::New);
    assert_eq!(kind("send"), NodeKind::Send);
    assert_eq!(kind("bundle"), NodeKind::Bundle);
    assert_eq!(kind("case"), NodeKind::Case);
    assert_eq!(kind("ifElse"), NodeKind::IfElse);
    assert_eq!(kind("set"), NodeKind::SetOf);
    assert_eq!(kind("map"), NodeKind::MapOf);
    assert_eq!(kind("ERROR"), NodeKind::Error);
    assert_eq!(kind("branch"), NodeKind::Other);
    assert_eq!(kind(""), NodeKind::Other);
    assert_eq!(field("pattern"), Field::Pattern);
    assert_eq!(field("proc"), Field::Proc);
    assert_eq!(field("decls"), Field::Decls);
    assert_eq!(field("bundle_type"), Field::BundleType);
    assert_eq!(field("nothing"), Field::Other);
}

#[test]
fn positions_and_spans_as_text() {
    let pos = SourcePos { line: 10, col: 200 };
    assert_eq!(pos.to_text(), "10:200");
    assert_eq!(SourcePos::from_point(0, 0), SourcePos { line: 1, col: 1 });
    let sp = SourceSpan::from_points(0, 4, 2, 0);
    assert_eq!(sp, span(1, 5, 3, 1));
    assert_eq!(sp.to_text(), "1:5 - 3:1");
    assert!(SourcePos { line: 1, col: 9 }.precedes(&SourcePos { line: 2, col: 1 }));
    assert!(SourcePos { line: 2, col: 1 }.precedes(&SourcePos { line: 2, col: 2 }));
    assert!(!SourcePos { line: 2, col: 2 }.precedes(&SourcePos { line: 2, col: 2 }));
}

#[test]
fn children_by_position_and_field() {
    let node = named(
        NodeKind::Other,
        "x",
        "",
        on(1, 2),
        vec![
            tok("(", on(1, 2)),
            under(Field::Key, nil(on(1, 2))),
            tok(",", on(1, 2)),
            under(Field::Value, long("1", on(1, 2))),
            under(Field::Key, long("2", on(1, 2))),
        ],
    );
    assert_eq!(node.named_child_count(), 3);
    assert_eq!(node.named_child(0).unwrap().kind, NodeKind::Nil);
    assert_eq!(node.named_child(2).unwrap().text, "2");
    assert!(node.named_child(3).is_none());
    assert_eq!(node.child_by_field(Field::Key).unwrap().kind, NodeKind::Nil);
    assert_eq!(node.child_by_field(Field::Value).unwrap().text, "1");
    assert!(node.child_by_field(Field::Proc).is_none());
    assert_eq!(node.next_named_child(0), Some(1));
    assert_eq!(node.next_named_child(2), Some(3));
    assert_eq!(node.next_named_child(5), None);
}
