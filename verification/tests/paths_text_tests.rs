use bullang::paths::{components, file_name_or, starts_with};
use bullang::project::{file_stem, is_bu_file_name, is_source_file_name, join};
use bullang::text::{dedup_strs, i64_to_string, render_template, split_lines, trimmed, u64_to_string};

#[test]
fn path_components() {
    assert_eq!(components("/a/b"), vec!["/".to_string(), "a".to_string(), "b".to_string()]);
    assert_eq!(components("a//b/./c/"), vec!["a".to_string(), "b".to_string(), "c".to_string()]);
    assert_eq!(components("./a"), vec![".".to_string(), "a".to_string()]);
    assert_eq!(file_name_or("/a/b.bu", "?"), "b.bu");
    assert_eq!(file_name_or("/", "?"), "?");
    assert_eq!(file_name_or("a/..", "?"), "?");
}

#[test]
fn path_prefixes() {
    assert!(starts_with("/a/b", "/a"));
    assert!(starts_with("/a/b", "/a/b/"));
    assert!(!starts_with("/a/bc", "/a/b"));
    assert!(starts_with("x", "x"));
}

#[test]
fn joining_paths() {
    assert_eq!(join("a", "b"), "a/b");
    assert_eq!(join("a/", "b"), "a/b");
    assert_eq!(join("", "b"), "b");
    assert_eq!(join("a", "/b"), "/b");
}

#[test]
fn file_names() {
    assert!(is_bu_file_name("x.bu"));
    assert!(!is_bu_file_name("x.rs"));
    assert!(is_source_file_name("math.bu"));
    assert!(!is_source_file_name("inventory.bu"));
    assert!(!is_source_file_name("main.bu"));
    assert!(!is_source_file_name("blueprint.bu"));
    assert_eq!(file_stem("math.bu"), "math");
    assert_eq!(file_stem("a.b.bu"), "a.b");
}

#[test]
fn numbers_as_text() {
    assert_eq!(u64_to_string(0), "0");
    assert_eq!(u64_to_string(18446744073709551615), "18446744073709551615");
    assert_eq!(i64_to_string(-42), "-42");
    assert_eq!(i64_to_string(i64::MIN), "-9223372036854775808");
}

#[test]
fn lines_and_trimming() {
    let ls = split_lines("a\r\nb\n\nc");
    let got: Vec<String> = ls.iter().map(|l| l.iter().collect()).collect();
    assert_eq!(got, vec!["a".to_string(), "b".to_string(), "".to_string(), "c".to_string()]);
    assert!(split_lines("").is_empty());
    let v: Vec<char> = "  hi there \t".chars().collect();
    assert_eq!(trimmed(&v, 0, v.len()), "hi there");
}

#[test]
fn repeats_removed_in_first_order() {
    let v = vec!["b".to_string(), "a".to_string(), "b".to_string(), "c".to_string(), "a".to_string()];
    assert_eq!(dedup_strs(&v), vec!["b".to_string(), "a".to_string(), "c".to_string()]);
}

#[test]
fn templates() {
    let args = vec!["x".to_string(), "y".to_string()];
    assert_eq!(render_template("{0}.max({1}) + {0}", &args), "x.max(y) + x");
    assert_eq!(render_template("{{ {0} }}", &args), "{ x }");
}

#[test]
fn a_path_lies_within_itself() {
    for p in ["/", "a", "./a/b", "/x/y/", ""] {
        assert!(starts_with(p, p));
    }
}

#[test]
fn lines_never_hold_a_newline() {
    for l in split_lines("x\ny\r\n\r\nz\n") {
        assert!(!l.contains(&'\n'));
    }
}
