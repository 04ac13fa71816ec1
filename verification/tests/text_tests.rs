use rholang_parser::ast::{AnnProc, Id, Name, Names, NamesError, Proc, Uri, Var};
use rholang_parser::fake::result::InterpreterResult;
use rholang_parser::parser::ast_builder::ASTBuilder;
use rholang_parser::parser::plan::sort_decls;
use rholang_parser::parser::rules::{BindDesc, SourceDesc};
use rholang_parser::text::{
    chars_of, find, join, matches_at, rfind_char, str_contains, str_ends_with, str_starts_with,
    trim, trim_end_matches, trim_matches,
};
use rholang_parser::{SourcePos, SourceSpan};

fn chars(s: &str) -> Vec<char> {
    s.chars().collect()
}

#[test]
fn trimming() {
    assert_eq!(trim("  a b \t\n"), "a b");
    assert_eq!(trim("\u{a0}x\u{3000}"), "x");
    assert_eq!(trim("   "), "");
    assert_eq!(trim(""), "");
    assert_eq!(trim_matches("\"\"a\"b\"", '"'), "a\"b");
    assert_eq!(trim_matches("````", '`'), "");
    assert_eq!(trim_matches("é`", '`'), "é");
    assert_eq!(trim_end_matches("a\n\n", '\n'), "a");
    assert_eq!(trim_end_matches("\na", '\n'), "\na");
    assert_eq!(Uri::from_literal("`rho:io:stdout`").as_str(), "rho:io:stdout");
}

#[test]
fn searching() {
    assert_eq!(chars_of("héllo"), chars("héllo"));
    assert_eq!(find(&chars("abcabc"), &chars("bc"), 0), Some(1));
    assert_eq!(find(&chars("abcabc"), &chars("bc"), 2), Some(4));
    assert_eq!(find(&chars("abcabc"), &chars("bc"), 5), None);
    assert_eq!(find(&chars("abc"), &chars(""), 3), Some(3));
    assert_eq!(find(&chars("abc"), &chars(""), 4), None);
    assert_eq!(find(&chars("ab"), &chars("abc"), 0), None);
    assert!(matches_at(&chars("abc"), &chars("bc"), 1));
    assert!(!matches_at(&chars("abc"), &chars("bc"), 2));
    assert_eq!(rfind_char(&chars("a)b)c"), ')', 5), Some(3));
    assert_eq!(rfind_char(&chars("a)b)c"), ')', 3), Some(1));
    assert_eq!(rfind_char(&chars("abc"), ')', 3), None);
    assert!(str_contains("héllo", "llo"));
    assert!(!str_contains("héllo", "hel"));
    assert!(str_starts_with("héllo", "hé"));
    assert!(!str_starts_with("h", "hé"));
    assert!(str_ends_with("héllo", "o"));
    assert!(str_ends_with("héllo", ""));
    assert!(!str_ends_with("lo", "llo"));
}

#[test]
fn joining() {
    let lines = vec!["a".to_string(), "".to_string(), "b".to_string()];
    assert_eq!(join(&lines, "\n"), "a\n\nb");
    assert_eq!(join(&vec![], ", "), "");
    assert_eq!(join(&vec!["x".to_string()], ", "), "x");
}

#[test]
fn interpreter_result_as_text() {
    let ok = InterpreterResult::Success("42".to_string());
    assert_eq!(ok.to_string_result(), Ok("42".to_string()));
    assert_eq!(ok.to_text(), "42");
    let parse = InterpreterResult::ParsingError { message: "m".to_string(), line: Some(3), column: Some(4) };
    assert_eq!(parse.to_string_result(), Err("Parsing error at line 3, column 4: m".to_string()));
    let parse = InterpreterResult::ParsingError { message: "m".to_string(), line: Some(3), column: None };
    assert_eq!(parse.to_string_result(), Err("Parsing error: m".to_string()));
    let run = InterpreterResult::RuntimeError { message: "m".to_string(), details: Some("d".to_string()) };
    assert_eq!(run.to_string_result(), Err("Runtime error: m - d".to_string()));
    let run = InterpreterResult::RuntimeError { message: "m".to_string(), details: None };
    assert_eq!(run.to_text(), "Runtime error: m");
}

fn span() -> SourceSpan {
    SourceSpan { start: SourcePos { line: 1, col: 1 }, end: SourcePos { line: 1, col: 2 } }
}

#[test]
fn name_lists_and_their_errors() {
    let x = Proc::ProcVar(Var::Id(Id { name: "x", pos: SourcePos { line: 1, col: 1 } }));
    let wild = Proc::ProcVar(Var::Wildcard);
    let nil = Proc::Nil;
    let quote = Proc::Quote { proc: &nil };
    let a = |p| AnnProc { proc: p, span: span() };

    let names = Names::from_slice(&[a(&x), a(&quote)], false).unwrap();
    assert_eq!(names.names.len(), 2);
    assert_eq!(names.names[1].name, Name::Quote(&nil));
    assert!(names.remainder.is_none());

    let names = Names::from_slice(&[a(&x), a(&quote), a(&wild)], true).unwrap();
    assert_eq!(names.names.len(), 2);
    assert_eq!(names.remainder, Some(Var::Wildcard));

    assert_eq!(Names::from_slice(&[], false).unwrap_err(), NamesError::Empty);
    assert_eq!(Names::from_slice(&[], true).unwrap_err(), NamesError::RemainderOfNone);
    assert_eq!(Names::from_slice(&[a(&x)], true).unwrap_err(), NamesError::RemainderOfOne);
    assert_eq!(Names::from_slice(&[a(&nil)], false).unwrap_err(), NamesError::NotAName);
    assert_eq!(Names::from_slice(&[a(&nil), a(&x)], true).unwrap_err(), NamesError::NotAName);
    assert_eq!(Names::from_slice(&[a(&x), a(&quote)], true).unwrap_err(), NamesError::NotAVar);
    assert_eq!(NamesError::Empty.message(), "attempt to build empty names");
    assert_eq!(
        NamesError::RemainderOfNone.message(),
        "attempt to build 'x, y ...@z' out of zero names"
    );
    assert_eq!(
        NamesError::RemainderOfOne.message(),
        "attempt to build 'x, y ...@z' out of one name"
    );
}

#[test]
fn descriptors_count_their_operands() {
    assert_eq!(SourceDesc::Simple.arity(), 1);
    assert_eq!(SourceDesc::RS.arity(), 1);
    assert_eq!(SourceDesc::SR { arity: 0 }.arity(), 1);
    assert_eq!(SourceDesc::SR { arity: 3 }.arity(), 4);
    let linear = BindDesc::Linear { name_count: 2, cont_present: false, source: SourceDesc::SR { arity: 3 } };
    assert_eq!(linear.arity(), 6);
    assert_eq!(BindDesc::Repeated { name_count: 2, cont_present: true }.arity(), 3);
    assert_eq!(BindDesc::Peek { name_count: 0, cont_present: false }.arity(), 1);
}

#[test]
fn a_bind_is_built_from_channel_inputs_and_names() {
    let ch = Proc::ProcVar(Var::Id(Id { name: "ch", pos: SourcePos { line: 1, col: 1 } }));
    let one = Proc::LongLiteral(1);
    let x = Proc::ProcVar(Var::Id(Id { name: "x", pos: SourcePos { line: 1, col: 9 } }));
    let a = |p| AnnProc { proc: p, span: span() };
    let desc = BindDesc::Linear { name_count: 1, cont_present: false, source: SourceDesc::SR { arity: 1 } };
    let bind = desc.to_bind(&[a(&ch), a(&one), a(&x)]).unwrap();
    match bind {
        rholang_parser::ast::Bind::Linear { lhs, rhs } => {
            assert_eq!(lhs.names.len(), 1);
            match rhs {
                rholang_parser::ast::Source::SendReceive { name, inputs } => {
                    assert_eq!(name.name, Name::ProcVar(Var::Id(Id { name: "ch", pos: SourcePos { line: 1, col: 1 } })));
                    assert_eq!(inputs.len(), 1);
                    assert_eq!(*inputs[0].proc, Proc::LongLiteral(1));
                }
                other => panic!("expected a send-receive source, got {:?}", other),
            }
        }
        other => panic!("expected a linear bind, got {:?}", other),
    }
    // a channel that is no name
    assert!(desc.to_bind(&[a(&one), a(&one), a(&x)]).is_none());
}

#[test]
fn the_builder_shares_its_constants() {
    let builder = ASTBuilder::with_capacity(2);
    assert_eq!(builder.capacity(), 2);
    assert_eq!(ASTBuilder::new().capacity(), 64);
    assert!(std::ptr::eq(builder.nil(), builder.nil()));
    assert!(std::ptr::eq(builder.alloc_long_literal(0), builder.alloc_long_literal(0)));
    assert!(std::ptr::eq(builder.alloc_long_literal(1), builder.alloc_long_literal(1)));
    assert!(std::ptr::eq(builder.alloc_list(&[]), builder.alloc_list(&[])));
    assert_eq!(*builder.alloc_long_literal(-7), Proc::LongLiteral(-7));
    assert_eq!(*builder.bool_literal(true), Proc::BoolLiteral(true));
    assert_eq!(*builder.bad(), Proc::Bad);
    assert_eq!(*builder.wildcard(), Proc::ProcVar(Var::Wildcard));
    assert_eq!(*builder.alloc_string_literal("\"hi\""), Proc::StringLiteral("hi"));
    assert_eq!(*builder.alloc_uri_literal("`u`"), Proc::UriLiteral(Uri("u")));
    // many allocations beyond the capacity
    let many: Vec<&Proc> = (2..200).map(|i| builder.alloc_long_literal(i)).collect();
    for (i, p) in many.iter().enumerate() {
        assert_eq!(**p, Proc::LongLiteral(i as i64 + 2));
    }
}

#[test]
fn declarations_sort_by_name_and_keep_their_order_within_a_name() {
    let d = |name: &'static str, col: usize| rholang_parser::ast::NameDecl {
        id: Id { name, pos: SourcePos { line: 1, col } },
        uri: None,
    };
    let sorted = sort_decls(&vec![d("b", 1), d("a", 2), d("b", 3), d("", 4), d("ab", 5), d("a", 6), d("B", 7), d("é", 8)]);
    let got: Vec<(&str, usize)> = sorted.iter().map(|x| (x.id.name, x.id.pos.col)).collect();
    assert_eq!(
        got,
        vec![("", 4), ("B", 7), ("a", 2), ("a", 6), ("ab", 5), ("b", 1), ("b", 3), ("é", 8)]
    );
}

#[test]
fn names_as_text() {
    let id = Id { name: "x", pos: SourcePos { line: 1, col: 1 } };
    assert_eq!(id.to_text(), "'x'");
    assert_eq!(Var::Id(id).to_text(), "'x'");
    assert_eq!(Var::Wildcard.to_text(), "_");
    assert_eq!(Uri("rho:io:stdout").to_text(), "`rho:io:stdout`");
    assert_eq!(rholang_parser::ast::SimpleType::ByteArray.to_text(), "ByteArray");
    assert_eq!(rholang_parser::ast::SimpleType::Bool.to_text(), "Bool");
    let decl = rholang_parser::ast::NameDecl { id, uri: Some(Uri("u")) };
    assert_eq!(decl.to_text(), "'x'(`u`)");
    let decl = rholang_parser::ast::NameDecl { id, uri: None };
    assert_eq!(decl.to_text(), "'x'");
}
