use bullang::ast::{Backend, Rank};
use bullang::commands::{
    convert_file, convert_header, default_out_name, output_overlaps, resolve_ext, run_hint, stdlib_listing,
    unknown_ext_message, FileConversion,
};

#[test]
fn extension_resolution() {
    assert_eq!(resolve_ext("rs", &Some(Backend::Python)), "py");
    assert_eq!(resolve_ext("rs", &None), "rs");
    assert_eq!(resolve_ext("go", &Some(Backend::Python)), "go");
    assert_eq!(unknown_ext_message("zz"), "error: unknown extension 'zz' — supported: rs, py, c, cpp, go");
}

#[test]
fn output_names_and_overlap() {
    assert_eq!(default_out_name(&None, "proj"), "_proj");
    assert_eq!(default_out_name(&Some("out".to_string()), "proj"), "out");
    assert!(output_overlaps("/a/proj/out", "/a/proj"));
    assert!(output_overlaps("/a", "/a/proj"));
    assert!(!output_overlaps("/a/_proj", "/a/proj"));
    assert!(!output_overlaps("/a/projx", "/a/proj"));
}

#[test]
fn header_and_hints() {
    assert_eq!(
        convert_header("/a/proj", &Rank::Tactic, "/a/_proj", "_proj", &Backend::Rust),
        vec![
            "bullang convert".to_string(),
            "  source  : /a/proj (tactic)".to_string(),
            "  output  : /a/_proj".to_string(),
            "  crate   : _proj".to_string(),
            "  backend : rust".to_string(),
            "".to_string(),
        ]
    );
    assert_eq!(run_hint(&Backend::Rust, "o", "c").unwrap(), vec!["to compile:".to_string(), "  cd o && cargo build".to_string()]);
    assert_eq!(run_hint(&Backend::Python, "o", "c").unwrap(), vec!["to run:".to_string(), "  cd o && python3 -m c".to_string()]);
    assert_eq!(run_hint(&Backend::Go, "o", "c").unwrap(), vec!["to run:".to_string(), "  cd o && go run .".to_string()]);
    assert_eq!(run_hint(&Backend::Unknown("zig".to_string()), "o", "c").unwrap_err(), "error: unknown backend 'zig'");
}

#[test]
fn converting_one_file() {
    let ok = convert_file("let add(a: i32, b: i32) -> result: i32 {\n    (a, b) : a + b -> {result};\n}\n", "add.bu", "add.bu");
    match ok {
        FileConversion::Converted(code) => assert_eq!(code, "#[allow(unused_imports)]\nuse crate::*;\n\npub fn add(a: i32, b: i32) -> i32 {\n    let result = a + b;\n    result\n}\n\n"),
        _ => panic!("expected a conversion"),
    }
    match convert_file("#rank: skirmish;\n", "inventory.bu", "x/inventory.bu") {
        FileConversion::Converted(code) => assert_eq!(code, ""),
        _ => panic!("expected an empty module list"),
    }
}

#[test]
fn converting_one_file_reports_problems() {
    match convert_file("let f(x: i32) -> y: i32 { (x) : g(x) -> {y}; }\n", "f.bu", "f.bu") {
        FileConversion::Invalid(errs) => {
            assert_eq!(errs.len(), 1);
            assert_eq!(errs[0].message, "Function 'f': skirmish files cannot call other functions (found call to 'g').");
        }
        _ => panic!("expected structural errors"),
    }
    match convert_file("let f(x: String) -> y: i32 { (x) : x -> {y}; }\n", "f.bu", "f.bu") {
        FileConversion::IllTyped(errs) => {
            assert_eq!(errs[0].message, "Function 'f': last bullet produces String but declared output is i32.");
        }
        _ => panic!("expected type errors"),
    }
    assert!(matches!(convert_file("let", "f.bu", "f.bu"), FileConversion::ParseFailed(_)));
    assert!(matches!(convert_file("k: f;", "inventory.bu", "inventory.bu"), FileConversion::Aborted(m) if m == "inventory.bu is missing #rank"));
}

#[test]
fn stdlib_catalogue_listing() {
    let lines = stdlib_listing();
    assert_eq!(lines[0], "Bullang standard library");
    assert_eq!(lines[1], "Available in every backend");
    assert_eq!(lines[3], "  Math");
    assert_eq!(lines[5], format!("    builtin::{:<14}  {}  — {}", "abs", "(x: numeric)             → |x|", "Absolute value"));
    assert_eq!(lines[9], format!("    builtin::{:<14}  {}  — {}", "clamp", "(x, min, max)             → x clamped to [min,max]", "Clamp to range"));
    assert_eq!(lines[11], "  String");
    assert_eq!(lines[13], format!("    builtin::{:<14}  {}  — {}", "to_upper", "(s: String)               → String", "Uppercase"));
    assert_eq!(lines.last().unwrap(), "Parameter counts are enforced at build time.");
    assert_eq!(lines.len(), 34);
}
