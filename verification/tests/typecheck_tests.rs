use bullang::ast::{BuFile, BuType, BulletSig, SourceFile};
use bullang::parser::parse_file;
use bullang::project::{BuText, Folder};
use bullang::typecheck::{typecheck_file, typecheck_tree, TypeEnv, TypeError};

fn source(text: &str) -> SourceFile {
    match parse_file(text, false) {
        Ok(BuFile::Source(sf)) => sf,
        other => panic!("expected a source file, got {:?}", other),
    }
}

fn messages(errs: &[TypeError]) -> Vec<String> {
    errs.iter().map(|e| e.message.clone()).collect()
}

fn file(dir: &str, name: &str, text: &str) -> BuText {
    BuText { name: name.to_string(), path: format!("{}/{}", dir, name), text: Ok(text.to_string()) }
}

fn folder(path: &str, files: Vec<BuText>, subdirs: Vec<Folder>) -> Folder {
    let name = path.rsplit('/').next().unwrap().to_string();
    Folder { path: path.to_string(), name, files, subdirs }
}

#[test]
fn operands_must_share_a_type() {
    let sf = source("let f(a: i32, b: i64) -> c: i32 {\n (a, b) : a + b -> {c};\n}\n");
    let r = typecheck_file(&sf, "f.bu");
    assert_eq!(messages(&r), vec!["Function 'f': operator '+' requires both sides to be the same type (left: i32, right: i64).".to_string()]);
    assert_eq!((r[0].line, r[0].col), (2, 2));
    assert_eq!(r[0].render(), "[f.bu:2:2] Function 'f': operator '+' requires both sides to be the same type (left: i32, right: i64).");
}

#[test]
fn operators_need_numbers() {
    let sf = source("let g(s: String) -> t: String {\n (s) : s + s -> {t};\n}\n");
    assert_eq!(messages(&typecheck_file(&sf, "g.bu")), vec!["Function 'g': operator '+' requires a numeric type, got String.".to_string()]);
}

#[test]
fn last_pipe_must_match_the_output() {
    let sf = source("let h(a: i32) -> t: String {\n (a) : a * a -> {t};\n}\nlet k(a: i32) -> t: Tuple[i32, bool] {\n (a) : (a, a) -> {t};\n}\n");
    assert_eq!(
        messages(&typecheck_file(&sf, "h.bu")),
        vec![
            "Function 'h': last bullet produces i32 but declared output is String.".to_string(),
            "Function 'k': last bullet produces Tuple[i32, i32] but declared output is Tuple[i32, bool].".to_string(),
        ]
    );
}

#[test]
fn unknown_types_agree_with_everything() {
    let sf = source("let u(a: i32) -> t: String {\n (a) : 7 -> {t};\n}\nlet v(a: i32) -> t: i32 {\n (a) : unknown_fn(a) -> {t};\n}\n");
    assert!(typecheck_file(&sf, "u.bu").is_empty());
}

#[test]
fn calls_are_checked_against_child_signatures() {
    let s = folder(
        "t/s",
        vec![
            file("t/s", "inventory.bu", "#rank: skirmish;\nops: dbl;\n"),
            file("t/s", "ops.bu", "let dbl(x: i32) -> y: i32 {\n (x) : x * 2 -> {y};\n}\n"),
        ],
        vec![],
    );
    let t = folder(
        "t",
        vec![
            file("t", "inventory.bu", "#rank: tactic;\nrun: run, two;\n"),
            file("t", "run.bu", "let run(a: i64) -> b: i32 {\n (a) : dbl(a) -> {b};\n}\nlet two(a: i32) -> b: i32 {\n (a) : dbl(a, a) -> {b};\n}\n"),
        ],
        vec![s],
    );
    let r = typecheck_tree(&t).unwrap();
    assert_eq!(
        messages(&r),
        vec![
            "Function 'run': argument 1 passed to 'dbl' is i64 but i32 was expected.".to_string(),
            "Function 'two': 'dbl' expects 1 argument(s) but received 2.".to_string(),
        ]
    );
    assert_eq!(r[0].file, "t/run.bu");
}

#[test]
fn type_environment_lookups() {
    let mut env = TypeEnv::new();
    assert!(env.get("f").is_none());
    env.insert("f".to_string(), BulletSig { params: vec![BuType::Named("i32".to_string())], returns: BuType::Unknown });
    let sig = env.get("f").unwrap();
    assert_eq!(sig.params.len(), 1);
    assert!(sig.returns.same(&BuType::Unknown));
    let mut other = TypeEnv::new();
    other.insert("f".to_string(), BulletSig { params: vec![], returns: BuType::Named("bool".to_string()) });
    env.extend(other);
    assert_eq!(env.get("f").unwrap().params.len(), 0);
}

#[test]
fn rust_type_names() {
    let arr = BuType::Array(Box::new(BuType::Named("u8".to_string())), 4);
    assert_eq!(arr.to_rust(), "[u8; 4]");
    assert_eq!(BuType::Unknown.to_rust(), "_");
    assert!(BuType::Named("f64".to_string()).is_numeric());
    assert!(!BuType::Named("String".to_string()).is_numeric());
    assert!(!arr.is_numeric());
}

#[test]
fn type_names_agree_up_to_whitespace() {
    let sf = source("let f(a: Vec[ i32 ]) -> b: Vec[i32] {\n (a) : a -> {b};\n}\n");
    assert!(typecheck_file(&sf, "f.bu").is_empty());
    let sf = source("let g(a: Vec[i64]) -> b: Vec[i32] {\n (a) : a -> {b};\n}\n");
    assert_eq!(messages(&typecheck_file(&sf, "g.bu")), vec!["Function 'g': last bullet produces Vec[i64] but declared output is Vec[i32].".to_string()]);
}

#[test]
fn a_tree_without_rank_stops_type_checking() {
    let t = folder("t", vec![file("t", "inventory.bu", "m: f;\n")], vec![]);
    assert_eq!(typecheck_tree(&t).unwrap_err(), "inventory.bu is missing #rank");
    let missing = folder("u", vec![], vec![]);
    assert!(typecheck_tree(&missing).unwrap().is_empty());
}
