use bullang::ast::Backend;
use bullang::harness::{c_harness, collect_tests, cpp_harness, go_harness, python_harness, rust_harness, test_backend, TestFn};
use bullang::project::{BuText, Folder};

fn file(dir: &str, name: &str, text: &str) -> BuText {
    BuText { name: name.to_string(), path: format!("{}/{}", dir, name), text: Ok(text.to_string()) }
}

fn t(name: &str, module: &str) -> TestFn {
    TestFn { name: name.to_string(), module: module.to_string() }
}

#[test]
fn collects_tests_in_tree_order() {
    let s = Folder {
        path: "p/s".to_string(),
        name: "s".to_string(),
        files: vec![
            file("p/s", "chk.bu", "#test\nlet ok_add() -> r: bool { () : true -> {r}; }\nlet plain() -> r: bool { () : true -> {r}; }\n"),
            file("p/s", "inventory.bu", "#rank: skirmish;\nchk: ok_add;\n"),
        ],
        subdirs: vec![],
    };
    let root = Folder {
        path: "p".to_string(),
        name: "p".to_string(),
        files: vec![
            file("p", "b.bu", "#test\nlet top() -> r: bool { () : true -> {r}; }\n"),
            file("p", "inventory.bu", "#rank: tactic;\nb: top;\n"),
            file("p", "main.bu", "#test\nlet hidden() -> r: bool { () : true -> {r}; }\n"),
        ],
        subdirs: vec![s],
    };
    let tests = collect_tests(&root).unwrap();
    let got: Vec<(String, String)> = tests.iter().map(|x| (x.name.clone(), x.module.clone())).collect();
    assert_eq!(got, vec![("ok_add".to_string(), "chk".to_string()), ("top".to_string(), "b".to_string())]);
}

#[test]
fn no_inventory_no_tests() {
    let root = Folder { path: "p".to_string(), name: "p".to_string(), files: vec![file("p", "a.bu", "#test\nlet x() -> r: bool { () : true -> {r}; }\n")], subdirs: vec![] };
    assert!(collect_tests(&root).unwrap().is_empty());
}

#[test]
fn backend_for_tests() {
    assert!(matches!(test_backend(&Some(Backend::Python), "rs"), Backend::Python));
    assert!(matches!(test_backend(&None, "go"), Backend::Go));
    assert!(matches!(test_backend(&None, "zz"), Backend::Rust));
    assert!(matches!(test_backend(&Some(Backend::Unknown("q".to_string())), "c"), Backend::C));
}

#[test]
fn rust_harness_text() {
    assert_eq!(
        rust_harness(&vec![t("a", "m")]),
        "\n#[cfg(test)]\nmod tests {\n    use super::*;\n    #[test]\n    fn a() {\n        assert!(super::a());\n    }\n}\n"
    );
}

#[test]
fn c_harness_text() {
    assert_eq!(
        c_harness(&vec![t("a", "m")]),
        "#include <stdio.h>\n#include <stdlib.h>\n\nextern int a(void);\n\nint main(void) {\n    int passed = 0, failed = 0;\n\n    if (a()) { printf(\"  ok  a\\n\"); passed++; }\n    else           { printf(\"  FAIL a\\n\"); failed++; }\n\n    printf(\"\\n%d passed, %d failed\\n\", passed, failed);\n    return failed > 0 ? 1 : 0;\n}\n"
    );
}

#[test]
fn cpp_harness_text() {
    assert_eq!(
        cpp_harness(&vec![t("a", "m")]),
        "#include <iostream>\n\nextern bool a();\n\nint main() {\n    int passed = 0, failed = 0;\n\n    if (a()) { std::cout << \"  ok  a\" << std::endl; passed++; }\n    else           { std::cout << \"  FAIL a\" << std::endl; failed++; }\n\n    std::cout << passed << \" passed, \" << failed << \" failed\" << std::endl;\n    return failed > 0 ? 1 : 0;\n}\n"
    );
}

#[test]
fn python_harness_text() {
    assert_eq!(
        python_harness(&vec![t("a", "m"), t("b", "m"), t("c", "n")]),
        "import unittest\n\nimport m\nimport n\n\nclass BullangTests(unittest.TestCase):\n    def test_a(self):\n        self.assertTrue(m.a())\n\n    def test_b(self):\n        self.assertTrue(m.b())\n\n    def test_c(self):\n        self.assertTrue(n.c())\n\nif __name__ == '__main__':\n    unittest.main()\n"
    );
}

#[test]
fn go_harness_text() {
    assert_eq!(
        go_harness(&vec![t("check_sum", "m")]),
        "package main\n\nimport \"testing\"\n\nfunc TestCheck_sum(t *testing.T) {\n    if !check_sum() { t.Fail() }\n}\n\n"
    );
}

#[test]
fn collecting_stops_on_a_file_outside_the_language() {
    let root = Folder {
        path: "p".to_string(),
        name: "p".to_string(),
        files: vec![
            file("p", "a.bu", "let f(x: i64) -> y: i64 { (x) : 99999999999999999999 -> {y}; }\n"),
            file("p", "inventory.bu", "#rank: skirmish;\na: f;\n"),
        ],
        subdirs: vec![],
    };
    assert_eq!(collect_tests(&root).unwrap_err(), "integer literal out of range");
}
