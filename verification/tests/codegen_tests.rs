use bullang::ast::{BuFile, SourceFile};
use bullang::codegen::{emit_cargo_toml, emit_cargo_toml_with_main, emit_lib_rs, emit_main, emit_mod_rs, emit_source};
use bullang::parser::parse_file;

fn source(text: &str) -> SourceFile {
    match parse_file(text, false) {
        Ok(BuFile::Source(sf)) => sf,
        other => panic!("expected a source file, got {:?}", other),
    }
}

const ADD: &str = "let add(a: i32, b: i32) -> result: i32 {\n    (a, b) : a + b -> {result};\n}\n";

#[test]
fn emits_a_rust_module() {
    assert_eq!(
        emit_source(&source(ADD)),
        "#[allow(unused_imports)]\nuse crate::*;\n\npub fn add(a: i32, b: i32) -> i32 {\n    let result = a + b;\n    result\n}\n\n"
    );
}

#[test]
fn the_last_binding_is_returned() {
    let text = "let f(a: i64) -> c: i64 {\n (a) : a * 2 -> {b};\n (b) : (b, g(b, &h)) -> {c};\n}\n";
    assert_eq!(
        emit_source(&source(text)),
        "#[allow(unused_imports)]\nuse crate::*;\n\npub fn f(a: i64) -> i64 {\n    let b = a * 2;\n    let c = (b, g(b, h));\n    c\n}\n\n"
    );
}

#[test]
fn emits_main_rs() {
    let text = "let main() -> r: i32 {\n    () : add(1, 2) -> {r};\n}\nlet helper(x: i32) -> y: i32 {\n (x) : x -> {y};\n}\n";
    assert_eq!(
        emit_main(&source(text), "demo"),
        "use demo::*;\n\nfn main() {\n    let r = add(1, 2);\n    r\n}\n\nfn helper(x: i32) -> i32 {\n    let y = x;\n    y\n}\n\n"
    );
}

#[test]
fn native_bodies_are_indented() {
    let text = "let n(x: i32) -> y: i32 {\n@rust\nx + 1\n\n  z\n@end\n}\nlet k(x: i32) -> y: i32 { @cobol X @end }\n";
    assert_eq!(
        emit_source(&source(text)),
        "#[allow(unused_imports)]\nuse crate::*;\n\npub fn n(x: i32) -> i32 {\n    x + 1\n\n      z\n}\n\npub fn k(x: i32) -> i32 {\n    compile_error!(\"'@cobol' is not a supported backend\")\n}\n\n"
    );
}

#[test]
fn builtin_bodies() {
    let text = "let m(x: i32) -> y: i32 { builtin::abs }\nlet q(x: i32) -> y: i32 { builtin::nope }\nlet w(x: i32) -> y: i32 { builtin::clamp }\n";
    assert_eq!(
        emit_source(&source(text)),
        "#[allow(unused_imports)]\nuse crate::*;\n\npub fn m(x: i32) -> i32 {\n    x.abs()\n}\n\npub fn q(x: i32) -> i32 {\n    compile_error!(\"'builtin::nope' is not a known builtin. Run `bullang stdlib --list` to see available builtins.\")\n}\n\npub fn w(x: i32) -> i32 {\n    compile_error!(\"'builtin::clamp' requires 3 parameter(s) but the function declares 1\")\n}\n\n"
    );
}

#[test]
fn string_literals() {
    let text = "let s(x: i32) -> y: String { (x) : \"hi\" -> {y}; }\n";
    assert!(emit_source(&source(text)).contains("    let y = String::from(\"hi\");\n"));
}

#[test]
fn cargo_manifests() {
    assert_eq!(
        emit_cargo_toml("demo"),
        "[package]\nname    = \"demo\"\nversion = \"0.1.0\"\nedition = \"2021\"\n\n[dependencies]\n"
    );
    assert_eq!(
        emit_cargo_toml_with_main("demo"),
        "[package]\nname    = \"demo\"\nversion = \"0.1.0\"\nedition = \"2021\"\n\n[[bin]]\nname = \"demo\"\npath = \"src/main.rs\"\n\n[lib]\nname = \"demo\"\npath = \"src/lib.rs\"\n\n[dependencies]\n"
    );
}

#[test]
fn module_lists() {
    let mods = vec!["a".to_string(), "b".to_string()];
    assert_eq!(emit_mod_rs(&mods), "pub mod a;\npub mod b;\n\npub use a::*;\npub use b::*;\n");
    assert_eq!(emit_mod_rs(&[]), "");
    assert_eq!(emit_lib_rs(&[]), "#![allow(unused_imports)]\n\n");
    assert_eq!(emit_lib_rs(&mods), "#![allow(unused_imports)]\n\npub mod a;\npub mod b;\n\npub use a::*;\npub use b::*;\n");
}

#[test]
fn test_functions_are_left_out() {
    let text = "#test\nlet check() -> r: bool { () : true -> {r}; }\nlet id(x: i32) -> y: i32 { (x) : x -> {y}; }\n";
    assert_eq!(
        emit_source(&source(text)),
        "#[allow(unused_imports)]\nuse crate::*;\n\npub fn id(x: i32) -> i32 {\n    let y = x;\n    y\n}\n\n"
    );
    let main = "let main() -> r: bool { () : true -> {r}; }\n#test\nlet t() -> r: bool { () : true -> {r}; }\n";
    assert_eq!(emit_main(&source(main), "d"), "use d::*;\n\nfn main() {\n    let r = true;\n    r\n}\n\n");
}
