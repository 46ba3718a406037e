use bullang::ast::{Atom, Backend, BuFile, BuType, BulletBody, CallArg, Expr, Rank, SourceFile};
use bullang::parser::{parse_file, position_line_col, ParseError};

fn source(text: &str) -> SourceFile {
    match parse_file(text, false) {
        Ok(BuFile::Source(sf)) => sf,
        other => panic!("expected a source file, got {:?}", other),
    }
}

const ADD: &str = "let add(a: i32, b: i32) -> result: i32 {\n    (a, b) : a + b -> {result};\n}\n";

#[test]
fn parses_the_readme_function() {
    let sf = source(ADD);
    assert_eq!(sf.bullets.len(), 1);
    let f = &sf.bullets[0];
    assert_eq!(f.name, "add");
    assert!(!f.is_test);
    assert_eq!(f.params.len(), 2);
    assert_eq!(f.params[0].name, "a");
    assert!(f.params[0].ty.same(&BuType::Named("i32".to_string())));
    assert_eq!(f.params[1].name, "b");
    assert_eq!(f.output.name, "result");
    assert_eq!(f.output.ty.to_rust(), "i32");
    assert_eq!((f.span.line, f.span.col), (1, 1));
    match &f.body {
        BulletBody::Pipes(ps) => {
            assert_eq!(ps.len(), 1);
            assert_eq!(ps[0].inputs, vec!["a".to_string(), "b".to_string()]);
            assert_eq!(ps[0].binding, "result");
            assert_eq!((ps[0].span.line, ps[0].span.col), (2, 5));
            match &ps[0].expr {
                Expr::BinOp(b) => {
                    assert!(matches!(&b.lhs, Atom::Ident(x) if x == "a"));
                    assert_eq!(b.op, "+");
                    assert!(matches!(&b.rhs, Atom::Ident(x) if x == "b"));
                }
                other => panic!("unexpected expression {:?}", other),
            }
        }
        other => panic!("unexpected body {:?}", other),
    }
}

#[test]
fn parses_calls_tuples_literals_and_tests() {
    let text = "#test\nlet t(x: i64) -> out: Tuple[i64, i64] {\n  (x) : (f(x, &g, -3), \"hi\") -> {out};\n}\n";
    let sf = source(text);
    let f = &sf.bullets[0];
    assert!(f.is_test);
    assert_eq!(f.output.ty.to_rust(), "Tuple[i64, i64]");
    match &f.body {
        BulletBody::Pipes(ps) => match &ps[0].expr {
            Expr::Tuple(xs) => {
                assert_eq!(xs.len(), 2);
                match &xs[0] {
                    Expr::Atom(Atom::Call { name, args }) => {
                        assert_eq!(name, "f");
                        assert_eq!(args.len(), 3);
                        assert!(matches!(&args[0], CallArg::Value(v) if v == "x"));
                        assert!(matches!(&args[1], CallArg::BulletRef(v) if v == "g"));
                        assert!(matches!(&args[2], CallArg::Value(v) if v == "-3"));
                    }
                    other => panic!("unexpected {:?}", other),
                }
                assert!(matches!(&xs[1], Expr::Atom(Atom::StringLit(s)) if s == "hi"));
            }
            other => panic!("unexpected {:?}", other),
        },
        other => panic!("unexpected body {:?}", other),
    }
}

#[test]
fn parses_native_and_builtin_bodies() {
    let text = "let n(x: i32) -> y: i32 {\n@rust\nx + 1\n@end\n}\nlet m(x: i32) -> y: i32 { builtin::abs }\nlet k(x: i32) -> y: i32 { @cobol X @end }\n";
    let sf = source(text);
    assert_eq!(sf.bullets.len(), 3);
    match &sf.bullets[0].body {
        BulletBody::Native { backend, code } => {
            assert!(matches!(backend, Backend::Rust));
            assert_eq!(code, "x + 1\n");
        }
        other => panic!("unexpected body {:?}", other),
    }
    assert!(matches!(&sf.bullets[1].body, BulletBody::Builtin(n) if n == "abs"));
    assert!(matches!(&sf.bullets[2].body, BulletBody::Native { backend: Backend::Unknown(k), .. } if k == "cobol"));
}

#[test]
fn parses_an_inventory() {
    let text = "#rank: tactic;\n#lang: py;\n#lib: math.h;\nmath: add, sub;\nempty: ;\n";
    match parse_file(text, true) {
        Ok(BuFile::Inventory(inv)) => {
            assert_eq!(inv.rank, Rank::Tactic);
            assert!(matches!(inv.lang, Some(Backend::Python)));
            assert_eq!(inv.libs, vec!["math.h".to_string()]);
            assert!(inv.structs.is_empty());
            assert_eq!(inv.entries.len(), 2);
            assert_eq!(inv.entries[0].file, "math");
            assert_eq!(inv.entries[0].functions, vec!["add".to_string(), "sub".to_string()]);
            assert_eq!(inv.entries[1].file, "empty");
            assert!(inv.entries[1].functions.is_empty());
        }
        other => panic!("unexpected {:?}", other),
    }
}

#[test]
fn inventory_without_rank_aborts() {
    match parse_file("math: add;\n", true) {
        Err(ParseError::Aborted(m)) => assert_eq!(m, "inventory.bu is missing #rank"),
        other => panic!("unexpected {:?}", other),
    }
}

#[test]
fn integer_out_of_range_aborts() {
    let text = "let f(x: i64) -> y: i64 {\n (x) : 99999999999999999999 -> {y};\n}\n";
    match parse_file(text, false) {
        Err(ParseError::Aborted(m)) => assert_eq!(m, "integer literal out of range"),
        other => panic!("unexpected {:?}", other),
    }
}

#[test]
fn syntax_error_is_rendered_by_pest() {
    let text = "let f(x: i32) y: i32 {}";
    match parse_file(text, false) {
        Err(ParseError::Syntax(m)) => {
            assert!(m.contains("expected `->`"), "{}", m);
            assert!(m.contains("1:15"), "{}", m);
            assert_ne!(m, "expected `->`");
        }
        other => panic!("unexpected {:?}", other),
    }
}

#[test]
fn comments_and_blank_files() {
    let sf = source("// nothing here\n\n");
    assert!(sf.bullets.is_empty());
    let sf = source("// a comment\nlet f(x: i32) -> y: i32 { (x) : x -> {y}; } // trailing\n");
    assert_eq!(sf.bullets.len(), 1);
}

#[test]
fn line_and_column_of_positions() {
    let s: Vec<char> = "ab\ncd\r\nef".chars().collect();
    assert_eq!(position_line_col(&s, 0), (1, 1));
    assert_eq!(position_line_col(&s, 1), (1, 2));
    assert_eq!(position_line_col(&s, 3), (2, 1));
    assert_eq!(position_line_col(&s, 7), (3, 1));
    assert_eq!(position_line_col(&s, 9), (3, 3));
}
