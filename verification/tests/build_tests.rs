use bullang::ast::Backend;
use bullang::project::{BuText, Folder};
use bullang::tree_build::build;

fn file(dir: &str, name: &str, text: &str) -> BuText {
    BuText { name: name.to_string(), path: format!("{}/{}", dir, name), text: Ok(text.to_string()) }
}

fn folder(path: &str, files: Vec<BuText>, subdirs: Vec<Folder>) -> Folder {
    let name = path.rsplit('/').next().unwrap().to_string();
    Folder { path: path.to_string(), name, files, subdirs }
}

const ADD: &str = "let add(a: i32, b: i32) -> result: i32 {\n    (a, b) : a + b -> {result};\n}\n";
const MAIN: &str = "let main() -> r: i32 {\n    () : add(1, 2) -> {r};\n}\n";

#[test]
fn builds_a_crate() {
    let theater = folder(
        "proj/t",
        vec![file("proj/t", "inventory.bu", "#rank: theater;\nmath: add;\n"), file("proj/t", "math.bu", ADD)],
        vec![],
    );
    let root = folder(
        "proj",
        vec![file("proj", "inventory.bu", "#rank: war;\n"), file("proj", "main.bu", MAIN)],
        vec![theater],
    );
    let plan = build(&root, "out", "demo", &Backend::Rust, "No such file or directory (os error 2)").unwrap();
    assert!(plan.errors.is_empty());
    let paths: Vec<&str> = plan.writes.iter().map(|(p, _)| p.as_str()).collect();
    assert_eq!(paths, vec!["out/src/t/math.rs", "out/src/t/mod.rs", "out/src/main.rs", "out/src/lib.rs", "out/Cargo.toml"]);
    assert_eq!(plan.writes[0].1, "#[allow(unused_imports)]\nuse crate::*;\n\npub fn add(a: i32, b: i32) -> i32 {\n    let result = a + b;\n    result\n}\n\n");
    assert_eq!(plan.writes[1].1, "pub mod math;\n\npub use math::*;\n");
    assert_eq!(plan.writes[2].1, "use demo::*;\n\nfn main() {\n    let r = add(1, 2);\n    r\n}\n\n");
    assert_eq!(plan.writes[3].1, "#![allow(unused_imports)]\n\npub mod t;\n\npub use t::*;\n");
    assert!(plan.writes[4].1.contains("[[bin]]"));
}

#[test]
fn library_only_crate_and_missing_files() {
    let root = folder(
        "lib",
        vec![file("lib", "inventory.bu", "#rank: skirmish;\ngone: f;\nmath: add;\n"), file("lib", "math.bu", ADD)],
        vec![],
    );
    let plan = build(&root, "o", "l", &Backend::Python, "No such file").unwrap();
    assert_eq!(plan.errors.len(), 1);
    assert_eq!(plan.errors[0].file, "lib/gone.bu");
    assert_eq!(plan.errors[0].message, "Could not read: No such file");
    let paths: Vec<&str> = plan.writes.iter().map(|(p, _)| p.as_str()).collect();
    assert_eq!(paths, vec!["o/src/math.py", "o/src/lib.rs", "o/Cargo.toml"]);
    assert_eq!(plan.writes[2].1, "[package]\nname    = \"l\"\nversion = \"0.1.0\"\nedition = \"2021\"\n\n[dependencies]\n");
}

#[test]
fn a_build_stops_on_an_inventory_without_rank() {
    let root = folder("x", vec![file("x", "inventory.bu", "a: b;\n")], vec![]);
    assert_eq!(build(&root, "o", "x", &Backend::Rust, "").err().unwrap(), "inventory.bu is missing #rank");
}
