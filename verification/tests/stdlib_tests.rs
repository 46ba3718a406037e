use bullang::ast::{Backend, BuType, Param};
use bullang::stdlib::{emit_builtin, is_known_builtin, list_builtins};

fn params(names: &[&str]) -> Vec<Param> {
    names.iter().map(|n| Param { name: n.to_string(), ty: BuType::Named("i64".to_string()) }).collect()
}

#[test]
fn thirteen_builtins() {
    let all = list_builtins();
    assert_eq!(all.len(), 13);
    assert_eq!(all[0].0, "abs");
    assert_eq!(all[12].0, "parse_i64");
    for (name, _, _) in &all {
        assert!(is_known_builtin(name));
    }
    assert!(!is_known_builtin("map"));
    assert!(!is_known_builtin(""));
}

#[test]
fn rust_builtins() {
    assert_eq!(emit_builtin("pow", &params(&["b", "e"]), &Backend::Rust).unwrap(), "b.pow(e as u32)");
    assert_eq!(emit_builtin("replace_str", &params(&["s", "f", "t"]), &Backend::Rust).unwrap(), "s.replace(f.as_str(), t.as_str())");
    assert_eq!(emit_builtin("parse_i64", &params(&["s"]), &Backend::Rust).unwrap(), "s.trim().parse::<i64>().unwrap_or(0)");
}

#[test]
fn python_builtins_escape_keywords() {
    assert_eq!(emit_builtin("clamp", &params(&["x", "lo", "hi"]), &Backend::Python).unwrap(), "max(lo, min(hi, x))");
    assert_eq!(emit_builtin("replace_str", &params(&["s", "from", "to"]), &Backend::Python).unwrap(), "s.replace(from_, to)");
    assert_eq!(emit_builtin("abs", &params(&["lambda"]), &Backend::Python).unwrap(), "abs(lambda_)");
}

#[test]
fn c_and_cpp_builtins() {
    assert_eq!(emit_builtin("pow", &params(&["b", "e"]), &Backend::C).unwrap(), "(int64_t)pow((double)b, (double)e)");
    assert_eq!(emit_builtin("starts_with", &params(&["s", "p"]), &Backend::C).unwrap(), "(strncmp(s, p, strlen(p)) == 0)");
    assert_eq!(emit_builtin("clamp", &params(&["x", "a", "b"]), &Backend::Cpp).unwrap(), "std::clamp(x, a, b)");
    assert_eq!(emit_builtin("starts_with", &params(&["s", "p"]), &Backend::Cpp).unwrap(), "s.rfind(p, 0) == 0");
}

#[test]
fn go_builtins() {
    assert_eq!(
        emit_builtin("abs", &params(&["x"]), &Backend::Go).unwrap(),
        "func() int64 { if x < 0 { return int64(-x) }; return int64(x) }()"
    );
    assert_eq!(emit_builtin("to_string", &params(&["n"]), &Backend::Go).unwrap(), "fmt.Sprintf(\"%v\", n)");
}

#[test]
fn builtin_errors() {
    assert_eq!(
        emit_builtin("map", &params(&["x"]), &Backend::Rust).unwrap_err(),
        "'builtin::map' is not a known builtin. Run `bullang stdlib --list` to see available builtins."
    );
    assert_eq!(
        emit_builtin("abs", &params(&["x", "y"]), &Backend::Rust).unwrap_err(),
        "'builtin::abs' requires 1 parameter(s) but the function declares 2"
    );
    assert_eq!(
        emit_builtin("abs", &params(&["x"]), &Backend::Unknown("zig".to_string())).unwrap_err(),
        "'builtin::abs' is not available for unknown backend 'zig'"
    );
}

#[test]
fn every_builtin_in_every_backend() {
    for (name, _, _) in list_builtins() {
        let n = match name {
            "pow" | "powf" | "starts_with" | "ends_with" => 2,
            "clamp" | "replace_str" => 3,
            _ => 1,
        };
        let ps: Vec<Param> = (0..n).map(|i| Param { name: format!("p{}", i), ty: BuType::Unknown }).collect();
        for b in [Backend::Rust, Backend::Python, Backend::C, Backend::Cpp, Backend::Go] {
            assert!(emit_builtin(name, &ps, &b).is_ok(), "{} {}", name, b.name());
        }
        let short: Vec<Param> = ps[..n - 1].to_vec();
        assert!(emit_builtin(name, &short, &Backend::Rust).is_err());
    }
}
