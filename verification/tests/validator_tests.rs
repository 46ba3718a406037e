use bullang::ast::{BuFile, Rank, SourceFile};
use bullang::parser::parse_file;
use bullang::project::{BuText, Folder};
use bullang::validator::{collect_child_callable, read_folder_rank, validate_source_direct, validate_tree, ValidationError};

fn file(dir: &str, name: &str, text: &str) -> BuText {
    BuText { name: name.to_string(), path: format!("{}/{}", dir, name), text: Ok(text.to_string()) }
}

fn folder(path: &str, files: Vec<BuText>, subdirs: Vec<Folder>) -> Folder {
    let name = path.rsplit('/').next().unwrap().to_string();
    Folder { path: path.to_string(), name, files, subdirs }
}

fn source(text: &str) -> SourceFile {
    match parse_file(text, false) {
        Ok(BuFile::Source(sf)) => sf,
        other => panic!("expected a source file, got {:?}", other),
    }
}

fn messages(errs: &[ValidationError]) -> Vec<String> {
    errs.iter().map(|e| e.message.clone()).collect()
}

const ADD: &str = "let add(a: i32, b: i32) -> result: i32 {\n    (a, b) : a + b -> {result};\n}\n";
const MAIN: &str = "let main() -> r: i32 {\n    () : add(1, 2) -> {r};\n}\n";

fn valid_project() -> Folder {
    let skirmish = folder(
        "proj/s",
        vec![file("proj/s", "inventory.bu", "#rank: skirmish;\nmath: add;\n"), file("proj/s", "math.bu", ADD)],
        vec![],
    );
    folder(
        "proj",
        vec![file("proj", "inventory.bu", "#rank: tactic;\n"), file("proj", "main.bu", MAIN)],
        vec![skirmish],
    )
}

#[test]
fn a_valid_project_has_no_errors() {
    let r = validate_tree(&valid_project()).unwrap();
    assert!(r.is_empty(), "{:?}", messages(&r));
}

#[test]
fn children_offer_what_their_inventories_list() {
    let root = valid_project();
    assert_eq!(collect_child_callable(&root.subdirs).unwrap(), vec!["add".to_string()]);
    assert_eq!(read_folder_rank(&root).unwrap(), Some(Rank::Tactic));
    assert_eq!(read_folder_rank(&root.subdirs[0]).unwrap(), Some(Rank::Skirmish));
}

#[test]
fn missing_inventory_is_reported() {
    let root = folder("lonely", vec![], vec![]);
    let r = validate_tree(&root).unwrap();
    assert_eq!(r.len(), 1);
    assert_eq!(r[0].file, "lonely");
    assert_eq!(r[0].message, "Missing inventory.bu in 'lonely' — every Bullang folder must have one.");
    assert_eq!(read_folder_rank(&root).unwrap(), None);
}

#[test]
fn skirmish_files_cannot_call() {
    let s = folder(
        "s",
        vec![
            file("s", "inventory.bu", "#rank: skirmish;\nops: f;\n"),
            file("s", "ops.bu", "let f(x: i32) -> y: i32 {\n (x) : g(x) -> {y};\n}\n"),
        ],
        vec![],
    );
    let r = validate_tree(&s).unwrap();
    assert_eq!(r.len(), 1);
    assert_eq!(r[0].file, "s/ops.bu");
    assert_eq!((r[0].line, r[0].col), (2, 2));
    assert_eq!(r[0].message, "Function 'f': skirmish files cannot call other functions (found call to 'g').");
    assert_eq!(r[0].render(), "[s/ops.bu:2:2] Function 'f': skirmish files cannot call other functions (found call to 'g').");
}

#[test]
fn war_folder_rules() {
    let root = folder(
        "w",
        vec![
            file("w", "inventory.bu", "#rank: war;\nx: ;\n"),
            file("w", "x.bu", "let f(x: i32) -> x: i32 { (x) : x -> {x}; }\n"),
        ],
        vec![folder("w/b", vec![file("w/b", "inventory.bu", "#rank: battle;\n")], vec![])],
    );
    let r = validate_tree(&root).unwrap();
    assert_eq!(
        messages(&r),
        vec![
            "War folder cannot contain source files (found 1). Consider using a theater rank instead.".to_string(),
            "War inventory cannot list any files.".to_string(),
            "Found unexpected 'battle' in inventory. Consider replacing it with 'theater'.".to_string(),
        ]
    );
    assert_eq!(r[0].file, "w");
    assert_eq!(r[1].file, "w/inventory.bu");
    assert_eq!(r[1].render(), "[w/inventory.bu] War inventory cannot list any files.");
    assert_eq!(r[2].file, "w/b");
}

#[test]
fn inventory_gaps_are_reported() {
    let t = folder(
        "t",
        vec![
            file("t", "extra.bu", ""),
            file("t", "inventory.bu", "#rank: skirmish;\nmath: add, mul;\nghost: g;\n"),
            file("t", "math.bu", "let add(a: i32, b: i32) -> result: i32 {\n    (a, b) : a + b -> {result};\n}\nlet sub(a: i32, b: i32) -> result: i32 {\n    (a, b) : a - b -> {result};\n}\n"),
        ],
        vec![],
    );
    let r = validate_tree(&t).unwrap();
    assert_eq!(
        messages(&r),
        vec![
            "Source file 'extra.bu' exists but is not listed in inventory. Add a line:  extra: fn1, fn2, ...;".to_string(),
            "Inventory lists 'ghost' but 'ghost.bu' does not exist in this folder.".to_string(),
            "Function 'sub' exists in 'math.bu' but is not listed in inventory.".to_string(),
            "The function 'mul' is listed in inventory, but not found in 'math.bu'.".to_string(),
        ]
    );
    assert!(r.iter().all(|e| e.file == "t/inventory.bu" && e.line == 0));
}

#[test]
fn pipe_rules_in_one_function() {
    let text = "let f(a: i32) -> out: i32 {\n (a) : a -> {x};\n (q) : 1 -> {x};\n (a) : 2 -> {y};\n}\n";
    let sf = source(text);
    let r = validate_source_direct(&sf, "f.bu", &vec![], &Rank::Tactic);
    assert_eq!(
        messages(&r),
        vec![
            "Function 'f' bullet 2: 'q' is an unknown parameter.".to_string(),
            "Function 'f': '{x}' is assigned more than once.".to_string(),
            "Function 'f': last bullet output '{y}' must match function output '{out}'.".to_string(),
            "Function 'f': '{x}' is produced but never used.".to_string(),
            "Function 'f': '{y}' is produced but never used.".to_string(),
        ]
    );
    assert_eq!((r[0].line, r[0].col), (3, 2));
    assert_eq!((r[2].line, r[2].col), (4, 2));
    assert_eq!(r[3].line, 0);
}

#[test]
fn more_than_five_bullets_is_the_first_error() {
    let text = "let f(a: i32) -> f6: i32 {\n (a) : a -> {f1};\n (f1) : f1 -> {f2};\n (f2) : f2 -> {f3};\n (f3) : f3 -> {f4};\n (f4) : f4 -> {f5};\n (f5) : f5 -> {f6};\n}\n";
    let r = validate_source_direct(&source(text), "f.bu", &vec![], &Rank::Battle);
    assert_eq!(messages(&r), vec!["Function 'f': cannot contain more than 5 bullets (found 6).".to_string()]);
}

#[test]
fn more_than_five_functions_is_the_first_error() {
    let mut text = String::new();
    for i in 0..6 {
        text.push_str(&format!("let f{}(a: i32) -> a: i32 {{ (a) : a -> {{a}}; }}\n", i));
    }
    let r = validate_source_direct(&source(&text), "many.bu", &vec![], &Rank::Battle);
    assert!(!r.is_empty());
    assert_eq!(r[0].message, "A source file cannot contain more than 5 functions (found 6).");
    assert_eq!(r[0].file, "many.bu");
}

#[test]
fn calls_must_name_a_child_function() {
    let text = "let f(a: i32) -> b: i32 {\n (a) : h(a, &k) -> {b};\n}\n";
    let callable = vec!["g".to_string()];
    let r = validate_source_direct(&source(text), "f.bu", &callable, &Rank::Strategy);
    assert_eq!(
        messages(&r),
        vec![
            "Function 'f': calls 'h' which is not listed in any child inventory.".to_string(),
            "Function 'f': references '&k' which is not listed in any child inventory.".to_string(),
        ]
    );
    let ok = validate_source_direct(&source(text), "f.bu", &vec!["h".to_string(), "k".to_string()], &Rank::Strategy);
    assert!(ok.is_empty());
    let open = validate_source_direct(&source(text), "f.bu", &vec![], &Rank::Strategy);
    assert!(open.is_empty());
}

#[test]
fn limits_on_folders() {
    let mut subs = Vec::new();
    for i in 0..6 {
        let p = format!("big/s{}", i);
        subs.push(folder(&p, vec![file(&p, "inventory.bu", "#rank: skirmish;\n")], vec![]));
    }
    let root = folder("big", vec![file("big", "inventory.bu", "#rank: tactic;\n")], subs);
    let r = validate_tree(&root).unwrap();
    assert_eq!(messages(&r), vec!["Tactic folder cannot contain more than 5 skirmish sub-folders (found 6).".to_string()]);
}

#[test]
fn unreadable_source_is_reported() {
    let t = folder(
        "t",
        vec![
            file("t", "inventory.bu", "#rank: skirmish;\nm: ;\n"),
            BuText { name: "m.bu".to_string(), path: "t/m.bu".to_string(), text: Err("permission denied".to_string()) },
        ],
        vec![],
    );
    let r = validate_tree(&t).unwrap();
    assert_eq!(messages(&r), vec!["Could not read file: permission denied".to_string()]);
    assert_eq!(r[0].file, "t/m.bu");
}

#[test]
fn an_inventory_without_rank_stops_the_check() {
    let t = folder("t", vec![file("t", "inventory.bu", "m: ;\n")], vec![]);
    assert_eq!(validate_tree(&t).unwrap_err(), "inventory.bu is missing #rank");
}

#[test]
fn a_blueprint_file_is_not_a_source_file() {
    let s = folder(
        "b",
        vec![
            file("b", "blueprint.bu", "math: add\n"),
            file("b", "inventory.bu", "#rank: skirmish;\nmath: add;\n"),
            file("b", "math.bu", ADD),
        ],
        vec![],
    );
    let r = validate_tree(&s).unwrap();
    assert!(r.is_empty(), "{:?}", messages(&r));
}

#[test]
fn source_files_live_only_in_skirmish_folders() {
    let t = folder(
        "t",
        vec![file("t", "inventory.bu", "#rank: strategy;\nmath: add;\n"), file("t", "math.bu", ADD)],
        vec![],
    );
    let r = validate_tree(&t).unwrap();
    assert_eq!(
        messages(&r),
        vec!["Strategy folder cannot contain source files (found 1). Source files belong in skirmish folders.".to_string()]
    );
    assert_eq!(r[0].file, "t");
}
