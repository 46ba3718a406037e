//! The standard library of builtins: functions that every backend can
//! express, emitted inline from a template per backend.

use vstd::prelude::*;
use crate::ast::{Backend, Param};
use crate::model::{BackendM, ParamM, backend_m, params_m, strs_m};
use crate::text::{decimal, owned, render, render_template, str_eq, usize_to_string};

verus! {

// ── The catalogue ────────────────────────────────────────────────────────────

/// The builtins, in catalogue order.
pub open spec fn builtin_names() -> Seq<Seq<char>> {
    seq!["abs"@, "pow"@, "powf"@, "sqrt"@, "clamp"@, "to_upper"@, "to_lower"@, "trim"@, "starts_with"@, "ends_with"@, "replace_str"@, "to_string"@, "parse_i64"@]
}

/// A name of the catalogue.
pub open spec fn is_builtin_name(n: Seq<char>) -> bool {
    n == "abs"@
        || n == "pow"@
        || n == "powf"@
        || n == "sqrt"@
        || n == "clamp"@
        || n == "to_upper"@
        || n == "to_lower"@
        || n == "trim"@
        || n == "starts_with"@
        || n == "ends_with"@
        || n == "replace_str"@
        || n == "to_string"@
        || n == "parse_i64"@
}

/// The catalogue: each builtin's name, signature and description.
pub open spec fn builtin_table() -> Seq<(Seq<char>, Seq<char>, Seq<char>)> {
    seq![
        ("abs"@, "(x: numeric)             \u{2192} |x|"@, "Absolute value"@),
        ("pow"@, "(base: numeric, exp: numeric) \u{2192} base^exp (integer)"@, "Integer power"@),
        ("powf"@, "(base: f64, exp: f64)     \u{2192} base^exp (float)"@, "Float power"@),
        ("sqrt"@, "(x: f64)                  \u{2192} \u{221a}x"@, "Square root"@),
        ("clamp"@, "(x, min, max)             \u{2192} x clamped to [min,max]"@, "Clamp to range"@),
        ("to_upper"@, "(s: String)               \u{2192} String"@, "Uppercase"@),
        ("to_lower"@, "(s: String)               \u{2192} String"@, "Lowercase"@),
        ("trim"@, "(s: String)               \u{2192} String"@, "Strip whitespace"@),
        ("starts_with"@, "(s: String, prefix: String) \u{2192} bool"@, "Prefix check"@),
        ("ends_with"@, "(s: String, suffix: String) \u{2192} bool"@, "Suffix check"@),
        ("replace_str"@, "(s, from, to: String)     \u{2192} String"@, "Replace occurrences"@),
        ("to_string"@, "(x: numeric)              \u{2192} String"@, "Convert to string"@),
        ("parse_i64"@, "(s: String)               \u{2192} i64 (or error)"@, "Parse string to integer"@),
    ]
}

pub open spec fn catalogue_m(v: Seq<(&str, &str, &str)>) -> Seq<(Seq<char>, Seq<char>, Seq<char>)> {
    v.map_values(|t: (&str, &str, &str)| (t.0@, t.1@, t.2@))
}

/// The catalogue of builtins.
pub fn list_builtins() -> (r: Vec<(&'static str, &'static str, &'static str)>)
    ensures
        catalogue_m(r@) == builtin_table(),
{
    let mut r: Vec<(&'static str, &'static str, &'static str)> = Vec::new();
    r.push(("abs", "(x: numeric)             \u{2192} |x|", "Absolute value"));
    r.push(("pow", "(base: numeric, exp: numeric) \u{2192} base^exp (integer)", "Integer power"));
    r.push(("powf", "(base: f64, exp: f64)     \u{2192} base^exp (float)", "Float power"));
    r.push(("sqrt", "(x: f64)                  \u{2192} \u{221a}x", "Square root"));
    r.push(("clamp", "(x, min, max)             \u{2192} x clamped to [min,max]", "Clamp to range"));
    r.push(("to_upper", "(s: String)               \u{2192} String", "Uppercase"));
    r.push(("to_lower", "(s: String)               \u{2192} String", "Lowercase"));
    r.push(("trim", "(s: String)               \u{2192} String", "Strip whitespace"));
    r.push(("starts_with", "(s: String, prefix: String) \u{2192} bool", "Prefix check"));
    r.push(("ends_with", "(s: String, suffix: String) \u{2192} bool", "Suffix check"));
    r.push(("replace_str", "(s, from, to: String)     \u{2192} String", "Replace occurrences"));
    r.push(("to_string", "(x: numeric)              \u{2192} String", "Convert to string"));
    r.push(("parse_i64", "(s: String)               \u{2192} i64 (or error)", "Parse string to integer"));
    assert(catalogue_m(r@) =~= builtin_table());
    r
}

/// Whether `name` is a builtin of the catalogue.
pub fn is_known_builtin(name: &str) -> (r: bool)
    ensures
        r == is_builtin_name(name@),
{
    str_eq(name, "abs")
        || str_eq(name, "pow")
        || str_eq(name, "powf")
        || str_eq(name, "sqrt")
        || str_eq(name, "clamp")
        || str_eq(name, "to_upper")
        || str_eq(name, "to_lower")
        || str_eq(name, "trim")
        || str_eq(name, "starts_with")
        || str_eq(name, "ends_with")
        || str_eq(name, "replace_str")
        || str_eq(name, "to_string")
        || str_eq(name, "parse_i64")
}

/// How many parameters a builtin takes (0 for a name outside the catalogue).
pub open spec fn arity(n: Seq<char>) -> nat {
    if n == "abs"@ || n == "sqrt"@ || n == "to_upper"@ || n == "to_lower"@ || n == "trim"@ || n == "to_string"@
        || n == "parse_i64"@ {
        1
    } else if n == "pow"@ || n == "powf"@ || n == "starts_with"@ || n == "ends_with"@ {
        2
    } else if n == "clamp"@ || n == "replace_str"@ {
        3
    } else {
        0
    }
}

fn param_count(name: &str) -> (r: usize)
    ensures
        r == arity(name@),
{
    if str_eq(name, "abs") || str_eq(name, "sqrt") || str_eq(name, "to_upper") || str_eq(name, "to_lower")
        || str_eq(name, "trim") || str_eq(name, "to_string") || str_eq(name, "parse_i64") {
        1
    } else if str_eq(name, "pow") || str_eq(name, "powf") || str_eq(name, "starts_with") || str_eq(name, "ends_with") {
        2
    } else if str_eq(name, "clamp") || str_eq(name, "replace_str") {
        3
    } else {
        0
    }
}

// ── Templates ────────────────────────────────────────────────────────────────

/// The Rust template of a builtin: `{0}`, `{1}`, `{2}` stand for its
/// parameters, `{{` and `}}` for braces.
pub open spec fn rust_tpl(n: Seq<char>) -> Seq<char> {
    if n == "abs"@ {
        "{0}.abs()"@
    } else if n == "pow"@ {
        "{0}.pow({1} as u32)"@
    } else if n == "powf"@ {
        "{0}.powf({1})"@
    } else if n == "sqrt"@ {
        "{0}.sqrt()"@
    } else if n == "clamp"@ {
        "{0}.clamp({1}, {2})"@
    } else if n == "to_upper"@ {
        "{0}.to_uppercase()"@
    } else if n == "to_lower"@ {
        "{0}.to_lowercase()"@
    } else if n == "trim"@ {
        "{0}.trim().to_owned()"@
    } else if n == "starts_with"@ {
        "{0}.starts_with({1}.as_str())"@
    } else if n == "ends_with"@ {
        "{0}.ends_with({1}.as_str())"@
    } else if n == "replace_str"@ {
        "{0}.replace({1}.as_str(), {2}.as_str())"@
    } else if n == "to_string"@ {
        "{0}.to_string()"@
    } else if n == "parse_i64"@ {
        "{0}.trim().parse::<i64>().unwrap_or(0)"@
    } else {
        Seq::empty()
    }
}

fn rust_template(name: &str) -> (t: &'static str)
    ensures
        t@ == rust_tpl(name@),
{
    if str_eq(name, "abs") {
        "{0}.abs()"
    } else if str_eq(name, "pow") {
        "{0}.pow({1} as u32)"
    } else if str_eq(name, "powf") {
        "{0}.powf({1})"
    } else if str_eq(name, "sqrt") {
        "{0}.sqrt()"
    } else if str_eq(name, "clamp") {
        "{0}.clamp({1}, {2})"
    } else if str_eq(name, "to_upper") {
        "{0}.to_uppercase()"
    } else if str_eq(name, "to_lower") {
        "{0}.to_lowercase()"
    } else if str_eq(name, "trim") {
        "{0}.trim().to_owned()"
    } else if str_eq(name, "starts_with") {
        "{0}.starts_with({1}.as_str())"
    } else if str_eq(name, "ends_with") {
        "{0}.ends_with({1}.as_str())"
    } else if str_eq(name, "replace_str") {
        "{0}.replace({1}.as_str(), {2}.as_str())"
    } else if str_eq(name, "to_string") {
        "{0}.to_string()"
    } else if str_eq(name, "parse_i64") {
        "{0}.trim().parse::<i64>().unwrap_or(0)"
    } else {
        let t: &'static str = "";
        proof { reveal_strlit(""); }
        t
    }
}

/// The Python template of a builtin: `{0}`, `{1}`, `{2}` stand for its
/// parameters, `{{` and `}}` for braces.
pub open spec fn python_tpl(n: Seq<char>) -> Seq<char> {
    if n == "abs"@ {
        "abs({0})"@
    } else if n == "pow"@ {
        "{0} ** int({1})"@
    } else if n == "powf"@ {
        "{0} ** {1}"@
    } else if n == "sqrt"@ {
        "__import__('math').sqrt({0})"@
    } else if n == "clamp"@ {
        "max({1}, min({2}, {0}))"@
    } else if n == "to_upper"@ {
        "{0}.upper()"@
    } else if n == "to_lower"@ {
        "{0}.lower()"@
    } else if n == "trim"@ {
        "{0}.strip()"@
    } else if n == "starts_with"@ {
        "{0}.startswith({1})"@
    } else if n == "ends_with"@ {
        "{0}.endswith({1})"@
    } else if n == "replace_str"@ {
        "{0}.replace({1}, {2})"@
    } else if n == "to_string"@ {
        "str({0})"@
    } else if n == "parse_i64"@ {
        "int({0}.strip())"@
    } else {
        Seq::empty()
    }
}

fn python_template(name: &str) -> (t: &'static str)
    ensures
        t@ == python_tpl(name@),
{
    if str_eq(name, "abs") {
        "abs({0})"
    } else if str_eq(name, "pow") {
        "{0} ** int({1})"
    } else if str_eq(name, "powf") {
        "{0} ** {1}"
    } else if str_eq(name, "sqrt") {
        "__import__('math').sqrt({0})"
    } else if str_eq(name, "clamp") {
        "max({1}, min({2}, {0}))"
    } else if str_eq(name, "to_upper") {
        "{0}.upper()"
    } else if str_eq(name, "to_lower") {
        "{0}.lower()"
    } else if str_eq(name, "trim") {
        "{0}.strip()"
    } else if str_eq(name, "starts_with") {
        "{0}.startswith({1})"
    } else if str_eq(name, "ends_with") {
        "{0}.endswith({1})"
    } else if str_eq(name, "replace_str") {
        "{0}.replace({1}, {2})"
    } else if str_eq(name, "to_string") {
        "str({0})"
    } else if str_eq(name, "parse_i64") {
        "int({0}.strip())"
    } else {
        let t: &'static str = "";
        proof { reveal_strlit(""); }
        t
    }
}

/// The C template of a builtin: `{0}`, `{1}`, `{2}` stand for its
/// parameters, `{{` and `}}` for braces.
pub open spec fn c_tpl(n: Seq<char>) -> Seq<char> {
    if n == "abs"@ {
        "abs({0})"@
    } else if n == "pow"@ {
        "(int64_t)pow((double){0}, (double){1})"@
    } else if n == "powf"@ {
        "pow({0}, {1})"@
    } else if n == "sqrt"@ {
        "sqrt((double){0})"@
    } else if n == "clamp"@ {
        "({0} < {1} ? {1} : ({0} > {2} ? {2} : {0}))"@
    } else if n == "to_upper"@ {
        "/* to_upper: iterate with toupper() over {0} */"@
    } else if n == "to_lower"@ {
        "/* to_lower: iterate with tolower() over {0} */"@
    } else if n == "trim"@ {
        "/* trim: implement manually for {0} */"@
    } else if n == "starts_with"@ {
        "(strncmp({0}, {1}, strlen({1})) == 0)"@
    } else if n == "ends_with"@ {
        "(strlen({0}) >= strlen({1}) && strcmp({0} + strlen({0}) - strlen({1}), {1}) == 0)"@
    } else if n == "replace_str"@ {
        "/* replace_str: implement manually for {0} */"@
    } else if n == "to_string"@ {
        "/* to_string: use sprintf for {0} */"@
    } else if n == "parse_i64"@ {
        "strtoll({0}, NULL, 10)"@
    } else {
        Seq::empty()
    }
}

fn c_template(name: &str) -> (t: &'static str)
    ensures
        t@ == c_tpl(name@),
{
    if str_eq(name, "abs") {
        "abs({0})"
    } else if str_eq(name, "pow") {
        "(int64_t)pow((double){0}, (double){1})"
    } else if str_eq(name, "powf") {
        "pow({0}, {1})"
    } else if str_eq(name, "sqrt") {
        "sqrt((double){0})"
    } else if str_eq(name, "clamp") {
        "({0} < {1} ? {1} : ({0} > {2} ? {2} : {0}))"
    } else if str_eq(name, "to_upper") {
        "/* to_upper: iterate with toupper() over {0} */"
    } else if str_eq(name, "to_lower") {
        "/* to_lower: iterate with tolower() over {0} */"
    } else if str_eq(name, "trim") {
        "/* trim: implement manually for {0} */"
    } else if str_eq(name, "starts_with") {
        "(strncmp({0}, {1}, strlen({1})) == 0)"
    } else if str_eq(name, "ends_with") {
        "(strlen({0}) >= strlen({1}) && strcmp({0} + strlen({0}) - strlen({1}), {1}) == 0)"
    } else if str_eq(name, "replace_str") {
        "/* replace_str: implement manually for {0} */"
    } else if str_eq(name, "to_string") {
        "/* to_string: use sprintf for {0} */"
    } else if str_eq(name, "parse_i64") {
        "strtoll({0}, NULL, 10)"
    } else {
        let t: &'static str = "";
        proof { reveal_strlit(""); }
        t
    }
}

/// The C++ template of a builtin: `{0}`, `{1}`, `{2}` stand for its
/// parameters, `{{` and `}}` for braces.
pub open spec fn cpp_tpl(n: Seq<char>) -> Seq<char> {
    if n == "abs"@ {
        "std::abs({0})"@
    } else if n == "pow"@ {
        "(decltype({0}))std::pow((double){0}, (double){1})"@
    } else if n == "powf"@ {
        "std::pow({0}, {1})"@
    } else if n == "sqrt"@ {
        "std::sqrt({0})"@
    } else if n == "clamp"@ {
        "std::clamp({0}, {1}, {2})"@
    } else if n == "to_upper"@ {
        "[&](){{ std::string _s({0}); std::transform(_s.begin(),_s.end(),_s.begin(),::toupper); return _s; }}()"@
    } else if n == "to_lower"@ {
        "[&](){{ std::string _s({0}); std::transform(_s.begin(),_s.end(),_s.begin(),::tolower); return _s; }}()"@
    } else if n == "trim"@ {
        "[&](){{ std::string _s({0}); _s.erase(0,_s.find_first_not_of(\" \\t\\n\\r\")); _s.erase(_s.find_last_not_of(\" \\t\\n\\r\")+1); return _s; }}()"@
    } else if n == "starts_with"@ {
        "{0}.rfind({1}, 0) == 0"@
    } else if n == "ends_with"@ {
        "({0}.size() >= {1}.size() && {0}.compare({0}.size()-{1}.size(), {1}.size(), {1}) == 0)"@
    } else if n == "replace_str"@ {
        "[&](){{ std::string _s={0}; std::size_t pos=0; while((pos=_s.find({1},pos))!=std::string::npos) {{ _s.replace(pos,{1}.size(),{2}); pos+={2}.size(); }} return _s; }}()"@
    } else if n == "to_string"@ {
        "std::to_string({0})"@
    } else if n == "parse_i64"@ {
        "std::stoll({0})"@
    } else {
        Seq::empty()
    }
}

fn cpp_template(name: &str) -> (t: &'static str)
    ensures
        t@ == cpp_tpl(name@),
{
    if str_eq(name, "abs") {
        "std::abs({0})"
    } else if str_eq(name, "pow") {
        "(decltype({0}))std::pow((double){0}, (double){1})"
    } else if str_eq(name, "powf") {
        "std::pow({0}, {1})"
    } else if str_eq(name, "sqrt") {
        "std::sqrt({0})"
    } else if str_eq(name, "clamp") {
        "std::clamp({0}, {1}, {2})"
    } else if str_eq(name, "to_upper") {
        "[&](){{ std::string _s({0}); std::transform(_s.begin(),_s.end(),_s.begin(),::toupper); return _s; }}()"
    } else if str_eq(name, "to_lower") {
        "[&](){{ std::string _s({0}); std::transform(_s.begin(),_s.end(),_s.begin(),::tolower); return _s; }}()"
    } else if str_eq(name, "trim") {
        "[&](){{ std::string _s({0}); _s.erase(0,_s.find_first_not_of(\" \\t\\n\\r\")); _s.erase(_s.find_last_not_of(\" \\t\\n\\r\")+1); return _s; }}()"
    } else if str_eq(name, "starts_with") {
        "{0}.rfind({1}, 0) == 0"
    } else if str_eq(name, "ends_with") {
        "({0}.size() >= {1}.size() && {0}.compare({0}.size()-{1}.size(), {1}.size(), {1}) == 0)"
    } else if str_eq(name, "replace_str") {
        "[&](){{ std::string _s={0}; std::size_t pos=0; while((pos=_s.find({1},pos))!=std::string::npos) {{ _s.replace(pos,{1}.size(),{2}); pos+={2}.size(); }} return _s; }}()"
    } else if str_eq(name, "to_string") {
        "std::to_string({0})"
    } else if str_eq(name, "parse_i64") {
        "std::stoll({0})"
    } else {
        let t: &'static str = "";
        proof { reveal_strlit(""); }
        t
    }
}

/// The Go template of a builtin: `{0}`, `{1}`, `{2}` stand for its
/// parameters, `{{` and `}}` for braces.
pub open spec fn go_tpl(n: Seq<char>) -> Seq<char> {
    if n == "abs"@ {
        "func() int64 {{ if {0} < 0 {{ return int64(-{0}) }}; return int64({0}) }}()"@
    } else if n == "pow"@ {
        "func() int64 {{ return int64(math.Round(math.Pow(float64({0}), float64({1})))) }}()"@
    } else if n == "powf"@ {
        "math.Pow({0}, {1})"@
    } else if n == "sqrt"@ {
        "math.Sqrt(float64({0}))"@
    } else if n == "clamp"@ {
        "func() int64 {{ x,lo,hi:=int64({0}),int64({1}),int64({2}); if x<lo{{return lo}}; if x>hi{{return hi}}; return x }}()"@
    } else if n == "to_upper"@ {
        "strings.ToUpper({0})"@
    } else if n == "to_lower"@ {
        "strings.ToLower({0})"@
    } else if n == "trim"@ {
        "strings.TrimSpace({0})"@
    } else if n == "starts_with"@ {
        "strings.HasPrefix({0}, {1})"@
    } else if n == "ends_with"@ {
        "strings.HasSuffix({0}, {1})"@
    } else if n == "replace_str"@ {
        "strings.ReplaceAll({0}, {1}, {2})"@
    } else if n == "to_string"@ {
        "fmt.Sprintf(\"%v\", {0})"@
    } else if n == "parse_i64"@ {
        "func() int64 {{ n, _ := strconv.ParseInt(strings.TrimSpace({0}), 10, 64); return n }}()"@
    } else {
        Seq::empty()
    }
}

fn go_template(name: &str) -> (t: &'static str)
    ensures
        t@ == go_tpl(name@),
{
    if str_eq(name, "abs") {
        "func() int64 {{ if {0} < 0 {{ return int64(-{0}) }}; return int64({0}) }}()"
    } else if str_eq(name, "pow") {
        "func() int64 {{ return int64(math.Round(math.Pow(float64({0}), float64({1})))) }}()"
    } else if str_eq(name, "powf") {
        "math.Pow({0}, {1})"
    } else if str_eq(name, "sqrt") {
        "math.Sqrt(float64({0}))"
    } else if str_eq(name, "clamp") {
        "func() int64 {{ x,lo,hi:=int64({0}),int64({1}),int64({2}); if x<lo{{return lo}}; if x>hi{{return hi}}; return x }}()"
    } else if str_eq(name, "to_upper") {
        "strings.ToUpper({0})"
    } else if str_eq(name, "to_lower") {
        "strings.ToLower({0})"
    } else if str_eq(name, "trim") {
        "strings.TrimSpace({0})"
    } else if str_eq(name, "starts_with") {
        "strings.HasPrefix({0}, {1})"
    } else if str_eq(name, "ends_with") {
        "strings.HasSuffix({0}, {1})"
    } else if str_eq(name, "replace_str") {
        "strings.ReplaceAll({0}, {1}, {2})"
    } else if str_eq(name, "to_string") {
        "fmt.Sprintf(\"%v\", {0})"
    } else if str_eq(name, "parse_i64") {
        "func() int64 {{ n, _ := strconv.ParseInt(strings.TrimSpace({0}), 10, 64); return n }}()"
    } else {
        let t: &'static str = "";
        proof { reveal_strlit(""); }
        t
    }
}


// ── Parameters ───────────────────────────────────────────────────────────────

/// The names of a function's parameters.
pub open spec fn param_names(ps: Seq<ParamM>) -> Seq<Seq<char>> {
    ps.map_values(|p: ParamM| p.name)
}

fn p(params: &[Param]) -> (r: Vec<String>)
    ensures
        strs_m(r@) == param_names(params_m(params@)),
{
    let mut r: Vec<String> = Vec::new();
    let mut i: usize = 0;
    while i < params.len()
        invariant
            i <= params.len(),
            strs_m(r@) == param_names(params_m(params@)).take(i as int),
        decreases params.len() - i,
    {
        let ghost before = strs_m(r@);
        r.push(owned(params[i].name.as_str()));
        assert(strs_m(r@) =~= before.push(params@[i as int].name@));
        assert(param_names(params_m(params@)).take(i + 1) =~= param_names(params_m(params@)).take(i as int).push(params@[i as int].name@));
        i = i + 1;
    }
    assert(param_names(params_m(params@)).take(params.len() as int) =~= param_names(params_m(params@)));
    r
}

/// A Python reserved word used as a parameter name, with `_` appended.
pub open spec fn py_escape(n: Seq<char>) -> Seq<char> {
    if n == "from"@ || n == "import"@ || n == "class"@ || n == "return"@ || n == "pass"@ || n == "for"@
        || n == "while"@ || n == "in"@ || n == "not"@ || n == "and"@ || n == "or"@ || n == "if"@
        || n == "else"@ || n == "lambda"@ || n == "with"@ || n == "as"@ || n == "try"@ || n == "except"@
        || n == "raise"@ || n == "del"@ {
        n + "_"@
    } else {
        n
    }
}

/// Escapes a parameter name that is a Python reserved word.
fn py_esc(name: &str) -> (r: String)
    ensures
        r@ == py_escape(name@),
{
    if str_eq(name, "from") || str_eq(name, "import") || str_eq(name, "class") || str_eq(name, "return")
        || str_eq(name, "pass") || str_eq(name, "for") || str_eq(name, "while") || str_eq(name, "in")
        || str_eq(name, "not") || str_eq(name, "and") || str_eq(name, "or") || str_eq(name, "if")
        || str_eq(name, "else") || str_eq(name, "lambda") || str_eq(name, "with") || str_eq(name, "as")
        || str_eq(name, "try") || str_eq(name, "except") || str_eq(name, "raise") || str_eq(name, "del") {
        let mut r = owned(name);
        r.append("_");
        r
    } else {
        owned(name)
    }
}

pub open spec fn m_param_count(name: Seq<char>, n: nat, got: nat) -> Seq<char> {
    "'builtin::"@ + name + "' requires "@ + decimal(n) + " parameter(s) but the function declares "@ + decimal(got)
}

/// The parameter names, when the builtin takes exactly that many.
fn need(name: &str, params: &[Param], n: usize) -> (r: Result<Vec<String>, String>)
    ensures
        match r {
            Ok(v) => strs_m(v@) == param_names(params_m(params@)) && params.len() == n,
            Err(m) => params.len() != n && m@ == m_param_count(name@, n as nat, params.len() as nat),
        },
{
    let v = p(params);
    assert(strs_m(v@).len() == v.len());
    assert(param_names(params_m(params@)).len() == params.len());
    if v.len() != n {
        let mut m = owned("'builtin::");
        m.append(name);
        m.append("' requires ");
        m.append(usize_to_string(n).as_str());
        m.append(" parameter(s) but the function declares ");
        m.append(usize_to_string(v.len()).as_str());
        return Err(m);
    }
    Ok(v)
}

// ── Emitting ─────────────────────────────────────────────────────────────────

/// A builtin's code from a template, when the parameter count is right.
pub open spec fn emitted(tpl: Seq<char>, name: Seq<char>, args: Seq<Seq<char>>) -> Result<Seq<char>, Seq<char>> {
    if args.len() != arity(name) {
        Err(m_param_count(name, arity(name), args.len()))
    } else {
        Ok(render(tpl, args))
    }
}

pub open spec fn res_m(r: Result<String, String>) -> Result<Seq<char>, Seq<char>> {
    match r {
        Ok(s) => Ok(s@),
        Err(e) => Err(e@),
    }
}

fn emit_rust(name: &str, params: &[Param]) -> (r: Result<String, String>)
    ensures
        res_m(r) == emitted(rust_tpl(name@), name@, param_names(params_m(params@))),
{
    let p = need(name, params, param_count(name))?;
    Ok(render_template(rust_template(name), &p))
}

fn emit_python(name: &str, params: &[Param]) -> (r: Result<String, String>)
    ensures
        res_m(r) == emitted(python_tpl(name@), name@,
            param_names(params_m(params@)).map_values(|n: Seq<char>| py_escape(n))),
{
    let raw = need(name, params, param_count(name))?;
    let mut escaped: Vec<String> = Vec::new();
    let mut i: usize = 0;
    while i < raw.len()
        invariant
            i <= raw.len(),
            strs_m(escaped@) == strs_m(raw@).take(i as int).map_values(|n: Seq<char>| py_escape(n)),
        decreases raw.len() - i,
    {
        let ghost before = strs_m(escaped@);
        escaped.push(py_esc(raw[i].as_str()));
        assert(strs_m(escaped@) =~= before.push(py_escape(raw@[i as int]@)));
        assert(strs_m(raw@).take(i + 1).map_values(|n: Seq<char>| py_escape(n))
            =~= strs_m(raw@).take(i as int).map_values(|n: Seq<char>| py_escape(n)).push(py_escape(raw@[i as int]@)));
        i = i + 1;
    }
    assert(strs_m(raw@).take(raw.len() as int) =~= strs_m(raw@));
    Ok(render_template(python_template(name), &escaped))
}

fn emit_c(name: &str, params: &[Param]) -> (r: Result<String, String>)
    ensures
        res_m(r) == emitted(c_tpl(name@), name@, param_names(params_m(params@))),
{
    let p = need(name, params, param_count(name))?;
    Ok(render_template(c_template(name), &p))
}

fn emit_cpp(name: &str, params: &[Param]) -> (r: Result<String, String>)
    ensures
        res_m(r) == emitted(cpp_tpl(name@), name@, param_names(params_m(params@))),
{
    let p = need(name, params, param_count(name))?;
    Ok(render_template(cpp_template(name), &p))
}

fn emit_go(name: &str, params: &[Param]) -> (r: Result<String, String>)
    ensures
        res_m(r) == emitted(go_tpl(name@), name@, param_names(params_m(params@))),
{
    let p = need(name, params, param_count(name))?;
    Ok(render_template(go_template(name), &p))
}

pub open spec fn m_unknown_builtin(name: Seq<char>) -> Seq<char> {
    "'builtin::"@ + name + "' is not a known builtin. Run `bullang stdlib --list` to see available builtins."@
}

pub open spec fn m_no_backend(name: Seq<char>, kw: Seq<char>) -> Seq<char> {
    "'builtin::"@ + name + "' is not available for unknown backend '"@ + kw + "'"@
}

/// The code of a call of builtin `name` in a function with parameters `ps`,
/// for backend `b`, or why there is none.
pub open spec fn builtin_code(name: Seq<char>, ps: Seq<ParamM>, b: BackendM) -> Result<Seq<char>, Seq<char>> {
    if !is_builtin_name(name) {
        Err(m_unknown_builtin(name))
    } else {
        match b {
            BackendM::Rust => emitted(rust_tpl(name), name, param_names(ps)),
            BackendM::Python => emitted(python_tpl(name), name, param_names(ps).map_values(|n: Seq<char>| py_escape(n))),
            BackendM::C => emitted(c_tpl(name), name, param_names(ps)),
            BackendM::Cpp => emitted(cpp_tpl(name), name, param_names(ps)),
            BackendM::Go => emitted(go_tpl(name), name, param_names(ps)),
            BackendM::Unknown(kw) => Err(m_no_backend(name, kw)),
        }
    }
}

/// The code that stands for builtin `name` in a function with `params`.
pub fn emit_builtin(name: &str, params: &[Param], backend: &Backend) -> (r: Result<String, String>)
    ensures
        res_m(r) == builtin_code(name@, params_m(params@), backend_m(*backend)),
{
    if !is_known_builtin(name) {
        let mut m = owned("'builtin::");
        m.append(name);
        m.append("' is not a known builtin. Run `bullang stdlib --list` to see available builtins.");
        return Err(m);
    }
    match backend {
        Backend::Rust => emit_rust(name, params),
        Backend::Python => emit_python(name, params),
        Backend::C => emit_c(name, params),
        Backend::Cpp => emit_cpp(name, params),
        Backend::Go => emit_go(name, params),
        Backend::Unknown(kw) => {
            let mut m = owned("'builtin::");
            m.append(name);
            m.append("' is not available for unknown backend '");
            m.append(kw.as_str());
            m.append("'");
            Err(m)
        },
    }
}


// ── Laws ─────────────────────────────────────────────────────────────────────

/// A name is a builtin exactly when it takes parameters.
pub proof fn law_known_iff_arity(n: Seq<char>)
    ensures
        is_builtin_name(n) <==> arity(n) > 0,
{
}

/// The catalogue lists exactly the known builtins, thirteen of them.
pub proof fn law_catalogue_is_known()
    ensures
        builtin_table().len() == 13,
        forall|i: int| 0 <= i < builtin_table().len() ==> is_builtin_name(#[trigger] builtin_table()[i].0),
        forall|n: Seq<char>| is_builtin_name(n) ==> exists|i: int| 0 <= i < builtin_table().len() && #[trigger] builtin_table()[i].0 == n,
{
    assert forall|n: Seq<char>| is_builtin_name(n) implies exists|i: int| 0 <= i < builtin_table().len() && #[trigger] builtin_table()[i].0 == n by {
        if n == "abs"@ { assert(builtin_table()[0].0 == n); }
        else if n == "pow"@ { assert(builtin_table()[1].0 == n); }
        else if n == "powf"@ { assert(builtin_table()[2].0 == n); }
        else if n == "sqrt"@ { assert(builtin_table()[3].0 == n); }
        else if n == "clamp"@ { assert(builtin_table()[4].0 == n); }
        else if n == "to_upper"@ { assert(builtin_table()[5].0 == n); }
        else if n == "to_lower"@ { assert(builtin_table()[6].0 == n); }
        else if n == "trim"@ { assert(builtin_table()[7].0 == n); }
        else if n == "starts_with"@ { assert(builtin_table()[8].0 == n); }
        else if n == "ends_with"@ { assert(builtin_table()[9].0 == n); }
        else if n == "replace_str"@ { assert(builtin_table()[10].0 == n); }
        else if n == "to_string"@ { assert(builtin_table()[11].0 == n); }
        else { assert(builtin_table()[12].0 == n); }
    }
}

/// Every builtin is available in every known backend, to a function with as
/// many parameters as the builtin takes.
pub proof fn law_builtin_available(name: Seq<char>, ps: Seq<ParamM>, b: BackendM)
    requires
        is_builtin_name(name),
        ps.len() == arity(name),
        !(b is Unknown),
    ensures
        builtin_code(name, ps, b) is Ok,
{
}


proof fn lemma_case_names()
    ensures
        is_builtin_name("to_upper"@),
        is_builtin_name("to_lower"@),
        arity("to_upper"@) == 1,
        arity("to_lower"@) == 1,
        rust_tpl("to_upper"@) == "{0}.to_uppercase()"@,
        rust_tpl("to_lower"@) == "{0}.to_lowercase()"@,
        python_tpl("to_upper"@) == "{0}.upper()"@,
        python_tpl("to_lower"@) == "{0}.lower()"@,
        c_tpl("to_upper"@) == "/* to_upper: iterate with toupper() over {0} */"@,
        c_tpl("to_lower"@) == "/* to_lower: iterate with tolower() over {0} */"@,
        cpp_tpl("to_upper"@) == "[&](){{ std::string _s({0}); std::transform(_s.begin(),_s.end(),_s.begin(),::toupper); return _s; }}()"@,
        cpp_tpl("to_lower"@) == "[&](){{ std::string _s({0}); std::transform(_s.begin(),_s.end(),_s.begin(),::tolower); return _s; }}()"@,
        go_tpl("to_upper"@) == "strings.ToUpper({0})"@,
        go_tpl("to_lower"@) == "strings.ToLower({0})"@,
{
    reveal_strlit("to_upper");
    reveal_strlit("to_lower");
    reveal_strlit("abs");
    reveal_strlit("pow");
    reveal_strlit("powf");
    reveal_strlit("sqrt");
    reveal_strlit("clamp");
    let u = "to_upper"@;
    let l = "to_lower"@;
    assert(u != "abs"@ && l != "abs"@) by { assert(u[0] != "abs"@[0] && l[0] != "abs"@[0]); }
    assert(u != "pow"@ && l != "pow"@) by { assert(u[0] != "pow"@[0] && l[0] != "pow"@[0]); }
    assert(u != "powf"@ && l != "powf"@) by { assert(u[0] != "powf"@[0] && l[0] != "powf"@[0]); }
    assert(u != "sqrt"@ && l != "sqrt"@) by { assert(u[0] != "sqrt"@[0] && l[0] != "sqrt"@[0]); }
    assert(u != "clamp"@ && l != "clamp"@) by { assert(u[0] != "clamp"@[0] && l[0] != "clamp"@[0]); }
    assert(u != l) by { assert(u[3] != l[3]); }
}

/// Renders `pre` + `{0}` + `post` for one argument, both parts free of braces.
proof fn lemma_render_around(pre: Seq<char>, post: Seq<char>, n: Seq<char>)
    requires
        crate::text::brace_free(pre),
        crate::text::brace_free(post),
    ensures
        crate::text::render(pre + (seq!['{', '0', '}'] + post), seq![n]) == pre + n + post,
{
    crate::text::lemma_render_plain_prefix(pre, seq!['{', '0', '}'] + post, seq![n]);
    crate::text::lemma_render_hole(post, seq![n]);
    crate::text::lemma_render_plain(post, seq![n]);
    assert(pre + (n + post) =~= pre + n + post);
}

/// The builtins `to_upper` and `to_lower` change the case of the function's
/// parameter, upward and downward, in every backend: each emits the
/// backend's own upper-casing or lower-casing of that parameter.
pub proof fn law_case_builtins(p: ParamM)
    ensures
        builtin_code("to_upper"@, seq![p], BackendM::Rust) == Ok::<Seq<char>, Seq<char>>(p.name + ".to_uppercase()"@),
        builtin_code("to_lower"@, seq![p], BackendM::Rust) == Ok::<Seq<char>, Seq<char>>(p.name + ".to_lowercase()"@),
        builtin_code("to_upper"@, seq![p], BackendM::Python) == Ok::<Seq<char>, Seq<char>>(py_escape(p.name) + ".upper()"@),
        builtin_code("to_lower"@, seq![p], BackendM::Python) == Ok::<Seq<char>, Seq<char>>(py_escape(p.name) + ".lower()"@),
        builtin_code("to_upper"@, seq![p], BackendM::C)
            == Ok::<Seq<char>, Seq<char>>("/* to_upper: iterate with toupper() over "@ + p.name + " */"@),
        builtin_code("to_lower"@, seq![p], BackendM::C)
            == Ok::<Seq<char>, Seq<char>>("/* to_lower: iterate with tolower() over "@ + p.name + " */"@),
        builtin_code("to_upper"@, seq![p], BackendM::Cpp) == Ok::<Seq<char>, Seq<char>>(
            "[&](){ std::string _s("@ + p.name
                + "); std::transform(_s.begin(),_s.end(),_s.begin(),::toupper); return _s; }()"@,
        ),
        builtin_code("to_lower"@, seq![p], BackendM::Cpp) == Ok::<Seq<char>, Seq<char>>(
            "[&](){ std::string _s("@ + p.name
                + "); std::transform(_s.begin(),_s.end(),_s.begin(),::tolower); return _s; }()"@,
        ),
        builtin_code("to_upper"@, seq![p], BackendM::Go) == Ok::<Seq<char>, Seq<char>>("strings.ToUpper("@ + p.name + ")"@),
        builtin_code("to_lower"@, seq![p], BackendM::Go) == Ok::<Seq<char>, Seq<char>>("strings.ToLower("@ + p.name + ")"@),
{
    lemma_case_names();
    let n = p.name;
    assert(param_names(seq![p]) =~= seq![n]);
    assert(param_names(seq![p]).map_values(|x: Seq<char>| py_escape(x)) =~= seq![py_escape(n)]);
    let e: Seq<char> = Seq::empty();
    // Rust, Python, Go: a hole then text, or text, a hole, text.
    reveal_strlit("{0}.to_uppercase()");
    reveal_strlit("{0}.to_lowercase()");
    reveal_strlit(".to_uppercase()");
    reveal_strlit(".to_lowercase()");
    reveal_strlit("{0}.upper()");
    reveal_strlit("{0}.lower()");
    reveal_strlit(".upper()");
    reveal_strlit(".lower()");
    reveal_strlit("strings.ToUpper({0})");
    reveal_strlit("strings.ToLower({0})");
    reveal_strlit("strings.ToUpper(");
    reveal_strlit("strings.ToLower(");
    reveal_strlit(")");
    reveal_strlit("/* to_upper: iterate with toupper() over {0} */");
    reveal_strlit("/* to_lower: iterate with tolower() over {0} */");
    reveal_strlit("/* to_upper: iterate with toupper() over ");
    reveal_strlit("/* to_lower: iterate with tolower() over ");
    reveal_strlit(" */");
    assert("{0}.to_uppercase()"@ =~= e + (seq!['{', '0', '}'] + ".to_uppercase()"@));
    assert("{0}.to_lowercase()"@ =~= e + (seq!['{', '0', '}'] + ".to_lowercase()"@));
    assert("{0}.upper()"@ =~= e + (seq!['{', '0', '}'] + ".upper()"@));
    assert("{0}.lower()"@ =~= e + (seq!['{', '0', '}'] + ".lower()"@));
    assert("strings.ToUpper({0})"@ =~= "strings.ToUpper("@ + (seq!['{', '0', '}'] + ")"@));
    assert("strings.ToLower({0})"@ =~= "strings.ToLower("@ + (seq!['{', '0', '}'] + ")"@));
    assert("/* to_upper: iterate with toupper() over {0} */"@ =~= "/* to_upper: iterate with toupper() over "@ + (seq!['{', '0', '}'] + " */"@));
    assert("/* to_lower: iterate with tolower() over {0} */"@ =~= "/* to_lower: iterate with tolower() over "@ + (seq!['{', '0', '}'] + " */"@));
    lemma_render_around(e, ".to_uppercase()"@, n);
    lemma_render_around(e, ".to_lowercase()"@, n);
    lemma_render_around(e, ".upper()"@, py_escape(n));
    lemma_render_around(e, ".lower()"@, py_escape(n));
    lemma_render_around("strings.ToUpper("@, ")"@, n);
    lemma_render_around("strings.ToLower("@, ")"@, n);
    lemma_render_around("/* to_upper: iterate with toupper() over "@, " */"@, n);
    lemma_render_around("/* to_lower: iterate with tolower() over "@, " */"@, n);
    assert(e + n + ".to_uppercase()"@ =~= n + ".to_uppercase()"@);
    assert(e + n + ".to_lowercase()"@ =~= n + ".to_lowercase()"@);
    assert(e + py_escape(n) + ".upper()"@ =~= py_escape(n) + ".upper()"@);
    assert(e + py_escape(n) + ".lower()"@ =~= py_escape(n) + ".lower()"@);
    // C++: text, an escaped brace, text, a hole, text, an escaped brace, text.
    lemma_cpp_case(n);
}

proof fn lemma_cpp_case(n: Seq<char>)
    ensures
        crate::text::render(
            "[&](){{ std::string _s({0}); std::transform(_s.begin(),_s.end(),_s.begin(),::toupper); return _s; }}()"@,
            seq![n],
        ) == "[&](){ std::string _s("@ + n + "); std::transform(_s.begin(),_s.end(),_s.begin(),::toupper); return _s; }()"@,
        crate::text::render(
            "[&](){{ std::string _s({0}); std::transform(_s.begin(),_s.end(),_s.begin(),::tolower); return _s; }}()"@,
            seq![n],
        ) == "[&](){ std::string _s("@ + n + "); std::transform(_s.begin(),_s.end(),_s.begin(),::tolower); return _s; }()"@,
{
    reveal_strlit("[&](){{ std::string _s({0}); std::transform(_s.begin(),_s.end(),_s.begin(),::toupper); return _s; }}()");
    reveal_strlit("[&](){{ std::string _s({0}); std::transform(_s.begin(),_s.end(),_s.begin(),::tolower); return _s; }}()");
    reveal_strlit("[&](){ std::string _s(");
    reveal_strlit("); std::transform(_s.begin(),_s.end(),_s.begin(),::toupper); return _s; }()");
    reveal_strlit("); std::transform(_s.begin(),_s.end(),_s.begin(),::tolower); return _s; }()");
    reveal_strlit("[&]()");
    reveal_strlit(" std::string _s(");
    reveal_strlit("); std::transform(_s.begin(),_s.end(),_s.begin(),::toupper); return _s; ");
    reveal_strlit("); std::transform(_s.begin(),_s.end(),_s.begin(),::tolower); return _s; ");
    reveal_strlit("()");
    let a = seq![n];
    let p1 = "[&]()"@;
    let p2 = " std::string _s("@;
    let tail = "()"@;
    let hole = seq!['{', '0', '}'];
    let ob = seq!['{', '{'];
    let cb = seq!['}', '}'];
    let m_up = "); std::transform(_s.begin(),_s.end(),_s.begin(),::toupper); return _s; "@;
    let m_lo = "); std::transform(_s.begin(),_s.end(),_s.begin(),::tolower); return _s; "@;
    let t_up = "[&](){{ std::string _s({0}); std::transform(_s.begin(),_s.end(),_s.begin(),::toupper); return _s; }}()"@;
    let t_lo = "[&](){{ std::string _s({0}); std::transform(_s.begin(),_s.end(),_s.begin(),::tolower); return _s; }}()"@;
    assert(t_up =~= p1 + (ob + (p2 + (hole + (m_up + (cb + tail))))));
    assert(t_lo =~= p1 + (ob + (p2 + (hole + (m_lo + (cb + tail))))));
    crate::text::lemma_render_plain(tail, a);
    crate::text::lemma_render_escape('}', tail, a);
    crate::text::lemma_render_plain_prefix(m_up, cb + tail, a);
    crate::text::lemma_render_plain_prefix(m_lo, cb + tail, a);
    crate::text::lemma_render_hole(m_up + (cb + tail), a);
    crate::text::lemma_render_hole(m_lo + (cb + tail), a);
    crate::text::lemma_render_plain_prefix(p2, hole + (m_up + (cb + tail)), a);
    crate::text::lemma_render_plain_prefix(p2, hole + (m_lo + (cb + tail)), a);
    crate::text::lemma_render_escape('{', p2 + (hole + (m_up + (cb + tail))), a);
    crate::text::lemma_render_escape('{', p2 + (hole + (m_lo + (cb + tail))), a);
    crate::text::lemma_render_plain_prefix(p1, ob + (p2 + (hole + (m_up + (cb + tail)))), a);
    crate::text::lemma_render_plain_prefix(p1, ob + (p2 + (hole + (m_lo + (cb + tail)))), a);
    assert(p1 + (seq!['{'] + (p2 + (n + (m_up + (seq!['}'] + tail))))) =~=
        "[&](){ std::string _s("@ + n + "); std::transform(_s.begin(),_s.end(),_s.begin(),::toupper); return _s; }()"@);
    assert(p1 + (seq!['{'] + (p2 + (n + (m_lo + (seq!['}'] + tail))))) =~=
        "[&](){ std::string _s("@ + n + "); std::transform(_s.begin(),_s.end(),_s.begin(),::tolower); return _s; }()"@);
}

proof fn lemma_rust_templates()
    ensures
        is_builtin_name("abs"@),
        arity("abs"@) == 1,
        rust_tpl("abs"@) == "{0}.abs()"@,
        is_builtin_name("pow"@),
        arity("pow"@) == 2,
        rust_tpl("pow"@) == "{0}.pow({1} as u32)"@,
        is_builtin_name("powf"@),
        arity("powf"@) == 2,
        rust_tpl("powf"@) == "{0}.powf({1})"@,
        is_builtin_name("sqrt"@),
        arity("sqrt"@) == 1,
        rust_tpl("sqrt"@) == "{0}.sqrt()"@,
        is_builtin_name("clamp"@),
        arity("clamp"@) == 3,
        rust_tpl("clamp"@) == "{0}.clamp({1}, {2})"@,
        is_builtin_name("to_upper"@),
        arity("to_upper"@) == 1,
        rust_tpl("to_upper"@) == "{0}.to_uppercase()"@,
        is_builtin_name("to_lower"@),
        arity("to_lower"@) == 1,
        rust_tpl("to_lower"@) == "{0}.to_lowercase()"@,
        is_builtin_name("trim"@),
        arity("trim"@) == 1,
        rust_tpl("trim"@) == "{0}.trim().to_owned()"@,
        is_builtin_name("starts_with"@),
        arity("starts_with"@) == 2,
        rust_tpl("starts_with"@) == "{0}.starts_with({1}.as_str())"@,
        is_builtin_name("ends_with"@),
        arity("ends_with"@) == 2,
        rust_tpl("ends_with"@) == "{0}.ends_with({1}.as_str())"@,
        is_builtin_name("replace_str"@),
        arity("replace_str"@) == 3,
        rust_tpl("replace_str"@) == "{0}.replace({1}.as_str(), {2}.as_str())"@,
        is_builtin_name("to_string"@),
        arity("to_string"@) == 1,
        rust_tpl("to_string"@) == "{0}.to_string()"@,
        is_builtin_name("parse_i64"@),
        arity("parse_i64"@) == 1,
        rust_tpl("parse_i64"@) == "{0}.trim().parse::<i64>().unwrap_or(0)"@,
{
    reveal_strlit("abs");
    reveal_strlit("pow");
    reveal_strlit("powf");
    reveal_strlit("sqrt");
    reveal_strlit("clamp");
    reveal_strlit("to_upper");
    reveal_strlit("to_lower");
    reveal_strlit("trim");
    reveal_strlit("starts_with");
    reveal_strlit("ends_with");
    reveal_strlit("replace_str");
    reveal_strlit("to_string");
    reveal_strlit("parse_i64");
    assert("pow"@ != "abs"@) by { assert("pow"@[0] != "abs"@[0]); }
    assert("powf"@ != "abs"@) by { assert("powf"@.len() != "abs"@.len()); }
    assert("powf"@ != "pow"@) by { assert("powf"@.len() != "pow"@.len()); }
    assert("sqrt"@ != "abs"@) by { assert("sqrt"@.len() != "abs"@.len()); }
    assert("sqrt"@ != "pow"@) by { assert("sqrt"@.len() != "pow"@.len()); }
    assert("sqrt"@ != "powf"@) by { assert("sqrt"@[0] != "powf"@[0]); }
    assert("clamp"@ != "abs"@) by { assert("clamp"@.len() != "abs"@.len()); }
    assert("clamp"@ != "pow"@) by { assert("clamp"@.len() != "pow"@.len()); }
    assert("clamp"@ != "powf"@) by { assert("clamp"@.len() != "powf"@.len()); }
    assert("clamp"@ != "sqrt"@) by { assert("clamp"@.len() != "sqrt"@.len()); }
    assert("to_upper"@ != "abs"@) by { assert("to_upper"@.len() != "abs"@.len()); }
    assert("to_upper"@ != "pow"@) by { assert("to_upper"@.len() != "pow"@.len()); }
    assert("to_upper"@ != "powf"@) by { assert("to_upper"@.len() != "powf"@.len()); }
    assert("to_upper"@ != "sqrt"@) by { assert("to_upper"@.len() != "sqrt"@.len()); }
    assert("to_upper"@ != "clamp"@) by { assert("to_upper"@.len() != "clamp"@.len()); }
    assert("to_lower"@ != "abs"@) by { assert("to_lower"@.len() != "abs"@.len()); }
    assert("to_lower"@ != "pow"@) by { assert("to_lower"@.len() != "pow"@.len()); }
    assert("to_lower"@ != "powf"@) by { assert("to_lower"@.len() != "powf"@.len()); }
    assert("to_lower"@ != "sqrt"@) by { assert("to_lower"@.len() != "sqrt"@.len()); }
    assert("to_lower"@ != "clamp"@) by { assert("to_lower"@.len() != "clamp"@.len()); }
    assert("to_lower"@ != "to_upper"@) by { assert("to_lower"@[3] != "to_upper"@[3]); }
    assert("trim"@ != "abs"@) by { assert("trim"@.len() != "abs"@.len()); }
    assert("trim"@ != "pow"@) by { assert("trim"@.len() != "pow"@.len()); }
    assert("trim"@ != "powf"@) by { assert("trim"@[0] != "powf"@[0]); }
    assert("trim"@ != "sqrt"@) by { assert("trim"@[0] != "sqrt"@[0]); }
    assert("trim"@ != "clamp"@) by { assert("trim"@.len() != "clamp"@.len()); }
    assert("trim"@ != "to_upper"@) by { assert("trim"@.len() != "to_upper"@.len()); }
    assert("trim"@ != "to_lower"@) by { assert("trim"@.len() != "to_lower"@.len()); }
    assert("starts_with"@ != "abs"@) by { assert("starts_with"@.len() != "abs"@.len()); }
    assert("starts_with"@ != "pow"@) by { assert("starts_with"@.len() != "pow"@.len()); }
    assert("starts_with"@ != "powf"@) by { assert("starts_with"@.len() != "powf"@.len()); }
    assert("starts_with"@ != "sqrt"@) by { assert("starts_with"@.len() != "sqrt"@.len()); }
    assert("starts_with"@ != "clamp"@) by { assert("starts_with"@.len() != "clamp"@.len()); }
    assert("starts_with"@ != "to_upper"@) by { assert("starts_with"@.len() != "to_upper"@.len()); }
    assert("starts_with"@ != "to_lower"@) by { assert("starts_with"@.len() != "to_lower"@.len()); }
    assert("starts_with"@ != "trim"@) by { assert("starts_with"@.len() != "trim"@.len()); }
    assert("ends_with"@ != "abs"@) by { assert("ends_with"@.len() != "abs"@.len()); }
    assert("ends_with"@ != "pow"@) by { assert("ends_with"@.len() != "pow"@.len()); }
    assert("ends_with"@ != "powf"@) by { assert("ends_with"@.len() != "powf"@.len()); }
    assert("ends_with"@ != "sqrt"@) by { assert("ends_with"@.len() != "sqrt"@.len()); }
    assert("ends_with"@ != "clamp"@) by { assert("ends_with"@.len() != "clamp"@.len()); }
    assert("ends_with"@ != "to_upper"@) by { assert("ends_with"@.len() != "to_upper"@.len()); }
    assert("ends_with"@ != "to_lower"@) by { assert("ends_with"@.len() != "to_lower"@.len()); }
    assert("ends_with"@ != "trim"@) by { assert("ends_with"@.len() != "trim"@.len()); }
    assert("ends_with"@ != "starts_with"@) by { assert("ends_with"@.len() != "starts_with"@.len()); }
    assert("replace_str"@ != "abs"@) by { assert("replace_str"@.len() != "abs"@.len()); }
    assert("replace_str"@ != "pow"@) by { assert("replace_str"@.len() != "pow"@.len()); }
    assert("replace_str"@ != "powf"@) by { assert("replace_str"@.len() != "powf"@.len()); }
    assert("replace_str"@ != "sqrt"@) by { assert("replace_str"@.len() != "sqrt"@.len()); }
    assert("replace_str"@ != "clamp"@) by { assert("replace_str"@.len() != "clamp"@.len()); }
    assert("replace_str"@ != "to_upper"@) by { assert("replace_str"@.len() != "to_upper"@.len()); }
    assert("replace_str"@ != "to_lower"@) by { assert("replace_str"@.len() != "to_lower"@.len()); }
    assert("replace_str"@ != "trim"@) by { assert("replace_str"@.len() != "trim"@.len()); }
    assert("replace_str"@ != "starts_with"@) by { assert("replace_str"@[0] != "starts_with"@[0]); }
    assert("replace_str"@ != "ends_with"@) by { assert("replace_str"@.len() != "ends_with"@.len()); }
    assert("to_string"@ != "abs"@) by { assert("to_string"@.len() != "abs"@.len()); }
    assert("to_string"@ != "pow"@) by { assert("to_string"@.len() != "pow"@.len()); }
    assert("to_string"@ != "powf"@) by { assert("to_string"@.len() != "powf"@.len()); }
    assert("to_string"@ != "sqrt"@) by { assert("to_string"@.len() != "sqrt"@.len()); }
    assert("to_string"@ != "clamp"@) by { assert("to_string"@.len() != "clamp"@.len()); }
    assert("to_string"@ != "to_upper"@) by { assert("to_string"@.len() != "to_upper"@.len()); }
    assert("to_string"@ != "to_lower"@) by { assert("to_string"@.len() != "to_lower"@.len()); }
    assert("to_string"@ != "trim"@) by { assert("to_string"@.len() != "trim"@.len()); }
    assert("to_string"@ != "starts_with"@) by { assert("to_string"@.len() != "starts_with"@.len()); }
    assert("to_string"@ != "ends_with"@) by { assert("to_string"@[0] != "ends_with"@[0]); }
    assert("to_string"@ != "replace_str"@) by { assert("to_string"@.len() != "replace_str"@.len()); }
    assert("parse_i64"@ != "abs"@) by { assert("parse_i64"@.len() != "abs"@.len()); }
    assert("parse_i64"@ != "pow"@) by { assert("parse_i64"@.len() != "pow"@.len()); }
    assert("parse_i64"@ != "powf"@) by { assert("parse_i64"@.len() != "powf"@.len()); }
    assert("parse_i64"@ != "sqrt"@) by { assert("parse_i64"@.len() != "sqrt"@.len()); }
    assert("parse_i64"@ != "clamp"@) by { assert("parse_i64"@.len() != "clamp"@.len()); }
    assert("parse_i64"@ != "to_upper"@) by { assert("parse_i64"@.len() != "to_upper"@.len()); }
    assert("parse_i64"@ != "to_lower"@) by { assert("parse_i64"@.len() != "to_lower"@.len()); }
    assert("parse_i64"@ != "trim"@) by { assert("parse_i64"@.len() != "trim"@.len()); }
    assert("parse_i64"@ != "starts_with"@) by { assert("parse_i64"@.len() != "starts_with"@.len()); }
    assert("parse_i64"@ != "ends_with"@) by { assert("parse_i64"@[0] != "ends_with"@[0]); }
    assert("parse_i64"@ != "replace_str"@) by { assert("parse_i64"@.len() != "replace_str"@.len()); }
    assert("parse_i64"@ != "to_string"@) by { assert("parse_i64"@[0] != "to_string"@[0]); }
}

proof fn lemma_rust_abs(a: Seq<Seq<char>>)
    requires
        a.len() == 1,
    ensures
        crate::text::render("{0}.abs()"@, a) == a[0] + ".abs()"@,
{
    reveal_strlit("{0}.abs()");
    reveal_strlit("");
    reveal_strlit(".abs()");
    assert("{0}.abs()"@ =~= ""@ + (seq!['{', '0', '}'] + (".abs()"@)));
    crate::text::lemma_render_plain(".abs()"@, a);
    crate::text::lemma_render_digit('0', ".abs()"@, a);
    crate::text::lemma_render_plain_prefix(""@, seq!['{', '0', '}'] + (".abs()"@), a);
    assert(""@ + (a[0] + (".abs()"@)) =~= a[0] + ".abs()"@);
}

proof fn lemma_rust_pow(a: Seq<Seq<char>>)
    requires
        a.len() == 2,
    ensures
        crate::text::render("{0}.pow({1} as u32)"@, a) == a[0] + ".pow("@ + a[1] + " as u32)"@,
{
    reveal_strlit("{0}.pow({1} as u32)");
    reveal_strlit("");
    reveal_strlit(" as u32)");
    reveal_strlit(".pow(");
    assert("{0}.pow({1} as u32)"@ =~= ""@ + (seq!['{', '0', '}'] + (".pow("@ + (seq!['{', '1', '}'] + (" as u32)"@)))));
    crate::text::lemma_render_plain(" as u32)"@, a);
    crate::text::lemma_render_digit('1', " as u32)"@, a);
    crate::text::lemma_render_plain_prefix(".pow("@, seq!['{', '1', '}'] + (" as u32)"@), a);
    crate::text::lemma_render_digit('0', ".pow("@ + (seq!['{', '1', '}'] + (" as u32)"@)), a);
    crate::text::lemma_render_plain_prefix(""@, seq!['{', '0', '}'] + (".pow("@ + (seq!['{', '1', '}'] + (" as u32)"@))), a);
    assert(""@ + (a[0] + (".pow("@ + (a[1] + (" as u32)"@)))) =~= a[0] + ".pow("@ + a[1] + " as u32)"@);
}

proof fn lemma_rust_powf(a: Seq<Seq<char>>)
    requires
        a.len() == 2,
    ensures
        crate::text::render("{0}.powf({1})"@, a) == a[0] + ".powf("@ + a[1] + ")"@,
{
    reveal_strlit("{0}.powf({1})");
    reveal_strlit("");
    reveal_strlit(".powf(");
    reveal_strlit(")");
    assert("{0}.powf({1})"@ =~= ""@ + (seq!['{', '0', '}'] + (".powf("@ + (seq!['{', '1', '}'] + (")"@)))));
    crate::text::lemma_render_plain(")"@, a);
    crate::text::lemma_render_digit('1', ")"@, a);
    crate::text::lemma_render_plain_prefix(".powf("@, seq!['{', '1', '}'] + (")"@), a);
    crate::text::lemma_render_digit('0', ".powf("@ + (seq!['{', '1', '}'] + (")"@)), a);
    crate::text::lemma_render_plain_prefix(""@, seq!['{', '0', '}'] + (".powf("@ + (seq!['{', '1', '}'] + (")"@))), a);
    assert(""@ + (a[0] + (".powf("@ + (a[1] + (")"@)))) =~= a[0] + ".powf("@ + a[1] + ")"@);
}

proof fn lemma_rust_sqrt(a: Seq<Seq<char>>)
    requires
        a.len() == 1,
    ensures
        crate::text::render("{0}.sqrt()"@, a) == a[0] + ".sqrt()"@,
{
    reveal_strlit("{0}.sqrt()");
    reveal_strlit("");
    reveal_strlit(".sqrt()");
    assert("{0}.sqrt()"@ =~= ""@ + (seq!['{', '0', '}'] + (".sqrt()"@)));
    crate::text::lemma_render_plain(".sqrt()"@, a);
    crate::text::lemma_render_digit('0', ".sqrt()"@, a);
    crate::text::lemma_render_plain_prefix(""@, seq!['{', '0', '}'] + (".sqrt()"@), a);
    assert(""@ + (a[0] + (".sqrt()"@)) =~= a[0] + ".sqrt()"@);
}

proof fn lemma_rust_clamp(a: Seq<Seq<char>>)
    requires
        a.len() == 3,
    ensures
        crate::text::render("{0}.clamp({1}, {2})"@, a) == a[0] + ".clamp("@ + a[1] + ", "@ + a[2] + ")"@,
{
    reveal_strlit("{0}.clamp({1}, {2})");
    reveal_strlit("");
    reveal_strlit(", ");
    reveal_strlit(")");
    reveal_strlit(".clamp(");
    assert("{0}.clamp({1}, {2})"@ =~= ""@ + (seq!['{', '0', '}'] + (".clamp("@ + (seq!['{', '1', '}'] + (", "@ + (seq!['{', '2', '}'] + (")"@)))))));
    crate::text::lemma_render_plain(")"@, a);
    crate::text::lemma_render_digit('2', ")"@, a);
    crate::text::lemma_render_plain_prefix(", "@, seq!['{', '2', '}'] + (")"@), a);
    crate::text::lemma_render_digit('1', ", "@ + (seq!['{', '2', '}'] + (")"@)), a);
    crate::text::lemma_render_plain_prefix(".clamp("@, seq!['{', '1', '}'] + (", "@ + (seq!['{', '2', '}'] + (")"@))), a);
    crate::text::lemma_render_digit('0', ".clamp("@ + (seq!['{', '1', '}'] + (", "@ + (seq!['{', '2', '}'] + (")"@)))), a);
    crate::text::lemma_render_plain_prefix(""@, seq!['{', '0', '}'] + (".clamp("@ + (seq!['{', '1', '}'] + (", "@ + (seq!['{', '2', '}'] + (")"@))))), a);
    assert(""@ + (a[0] + (".clamp("@ + (a[1] + (", "@ + (a[2] + (")"@)))))) =~= a[0] + ".clamp("@ + a[1] + ", "@ + a[2] + ")"@);
}

proof fn lemma_rust_to_upper(a: Seq<Seq<char>>)
    requires
        a.len() == 1,
    ensures
        crate::text::render("{0}.to_uppercase()"@, a) == a[0] + ".to_uppercase()"@,
{
    reveal_strlit("{0}.to_uppercase()");
    reveal_strlit("");
    reveal_strlit(".to_uppercase()");
    assert("{0}.to_uppercase()"@ =~= ""@ + (seq!['{', '0', '}'] + (".to_uppercase()"@)));
    crate::text::lemma_render_plain(".to_uppercase()"@, a);
    crate::text::lemma_render_digit('0', ".to_uppercase()"@, a);
    crate::text::lemma_render_plain_prefix(""@, seq!['{', '0', '}'] + (".to_uppercase()"@), a);
    assert(""@ + (a[0] + (".to_uppercase()"@)) =~= a[0] + ".to_uppercase()"@);
}

proof fn lemma_rust_to_lower(a: Seq<Seq<char>>)
    requires
        a.len() == 1,
    ensures
        crate::text::render("{0}.to_lowercase()"@, a) == a[0] + ".to_lowercase()"@,
{
    reveal_strlit("{0}.to_lowercase()");
    reveal_strlit("");
    reveal_strlit(".to_lowercase()");
    assert("{0}.to_lowercase()"@ =~= ""@ + (seq!['{', '0', '}'] + (".to_lowercase()"@)));
    crate::text::lemma_render_plain(".to_lowercase()"@, a);
    crate::text::lemma_render_digit('0', ".to_lowercase()"@, a);
    crate::text::lemma_render_plain_prefix(""@, seq!['{', '0', '}'] + (".to_lowercase()"@), a);
    assert(""@ + (a[0] + (".to_lowercase()"@)) =~= a[0] + ".to_lowercase()"@);
}

proof fn lemma_rust_trim(a: Seq<Seq<char>>)
    requires
        a.len() == 1,
    ensures
        crate::text::render("{0}.trim().to_owned()"@, a) == a[0] + ".trim().to_owned()"@,
{
    reveal_strlit("{0}.trim().to_owned()");
    reveal_strlit("");
    reveal_strlit(".trim().to_owned()");
    assert("{0}.trim().to_owned()"@ =~= ""@ + (seq!['{', '0', '}'] + (".trim().to_owned()"@)));
    crate::text::lemma_render_plain(".trim().to_owned()"@, a);
    crate::text::lemma_render_digit('0', ".trim().to_owned()"@, a);
    crate::text::lemma_render_plain_prefix(""@, seq!['{', '0', '}'] + (".trim().to_owned()"@), a);
    assert(""@ + (a[0] + (".trim().to_owned()"@)) =~= a[0] + ".trim().to_owned()"@);
}

proof fn lemma_rust_starts_with(a: Seq<Seq<char>>)
    requires
        a.len() == 2,
    ensures
        crate::text::render("{0}.starts_with({1}.as_str())"@, a) == a[0] + ".starts_with("@ + a[1] + ".as_str())"@,
{
    reveal_strlit("{0}.starts_with({1}.as_str())");
    reveal_strlit("");
    reveal_strlit(".as_str())");
    reveal_strlit(".starts_with(");
    assert("{0}.starts_with({1}.as_str())"@ =~= ""@ + (seq!['{', '0', '}'] + (".starts_with("@ + (seq!['{', '1', '}'] + (".as_str())"@)))));
    crate::text::lemma_render_plain(".as_str())"@, a);
    crate::text::lemma_render_digit('1', ".as_str())"@, a);
    crate::text::lemma_render_plain_prefix(".starts_with("@, seq!['{', '1', '}'] + (".as_str())"@), a);
    crate::text::lemma_render_digit('0', ".starts_with("@ + (seq!['{', '1', '}'] + (".as_str())"@)), a);
    crate::text::lemma_render_plain_prefix(""@, seq!['{', '0', '}'] + (".starts_with("@ + (seq!['{', '1', '}'] + (".as_str())"@))), a);
    assert(""@ + (a[0] + (".starts_with("@ + (a[1] + (".as_str())"@)))) =~= a[0] + ".starts_with("@ + a[1] + ".as_str())"@);
}

proof fn lemma_rust_ends_with(a: Seq<Seq<char>>)
    requires
        a.len() == 2,
    ensures
        crate::text::render("{0}.ends_with({1}.as_str())"@, a) == a[0] + ".ends_with("@ + a[1] + ".as_str())"@,
{
    reveal_strlit("{0}.ends_with({1}.as_str())");
    reveal_strlit("");
    reveal_strlit(".ends_with(");
    reveal_strlit(".as_str())");
    assert("{0}.ends_with({1}.as_str())"@ =~= ""@ + (seq!['{', '0', '}'] + (".ends_with("@ + (seq!['{', '1', '}'] + (".as_str())"@)))));
    crate::text::lemma_render_plain(".as_str())"@, a);
    crate::text::lemma_render_digit('1', ".as_str())"@, a);
    crate::text::lemma_render_plain_prefix(".ends_with("@, seq!['{', '1', '}'] + (".as_str())"@), a);
    crate::text::lemma_render_digit('0', ".ends_with("@ + (seq!['{', '1', '}'] + (".as_str())"@)), a);
    crate::text::lemma_render_plain_prefix(""@, seq!['{', '0', '}'] + (".ends_with("@ + (seq!['{', '1', '}'] + (".as_str())"@))), a);
    assert(""@ + (a[0] + (".ends_with("@ + (a[1] + (".as_str())"@)))) =~= a[0] + ".ends_with("@ + a[1] + ".as_str())"@);
}

proof fn lemma_rust_replace_str(a: Seq<Seq<char>>)
    requires
        a.len() == 3,
    ensures
        crate::text::render("{0}.replace({1}.as_str(), {2}.as_str())"@, a) == a[0] + ".replace("@ + a[1] + ".as_str(), "@ + a[2] + ".as_str())"@,
{
    reveal_strlit("{0}.replace({1}.as_str(), {2}.as_str())");
    reveal_strlit("");
    reveal_strlit(".replace(");
    reveal_strlit(".as_str())");
    reveal_strlit(".as_str(), ");
    assert("{0}.replace({1}.as_str(), {2}.as_str())"@ =~= ""@ + (seq!['{', '0', '}'] + (".replace("@ + (seq!['{', '1', '}'] + (".as_str(), "@ + (seq!['{', '2', '}'] + (".as_str())"@)))))));
    crate::text::lemma_render_plain(".as_str())"@, a);
    crate::text::lemma_render_digit('2', ".as_str())"@, a);
    crate::text::lemma_render_plain_prefix(".as_str(), "@, seq!['{', '2', '}'] + (".as_str())"@), a);
    crate::text::lemma_render_digit('1', ".as_str(), "@ + (seq!['{', '2', '}'] + (".as_str())"@)), a);
    crate::text::lemma_render_plain_prefix(".replace("@, seq!['{', '1', '}'] + (".as_str(), "@ + (seq!['{', '2', '}'] + (".as_str())"@))), a);
    crate::text::lemma_render_digit('0', ".replace("@ + (seq!['{', '1', '}'] + (".as_str(), "@ + (seq!['{', '2', '}'] + (".as_str())"@)))), a);
    crate::text::lemma_render_plain_prefix(""@, seq!['{', '0', '}'] + (".replace("@ + (seq!['{', '1', '}'] + (".as_str(), "@ + (seq!['{', '2', '}'] + (".as_str())"@))))), a);
    assert(""@ + (a[0] + (".replace("@ + (a[1] + (".as_str(), "@ + (a[2] + (".as_str())"@)))))) =~= a[0] + ".replace("@ + a[1] + ".as_str(), "@ + a[2] + ".as_str())"@);
}

proof fn lemma_rust_to_string(a: Seq<Seq<char>>)
    requires
        a.len() == 1,
    ensures
        crate::text::render("{0}.to_string()"@, a) == a[0] + ".to_string()"@,
{
    reveal_strlit("{0}.to_string()");
    reveal_strlit("");
    reveal_strlit(".to_string()");
    assert("{0}.to_string()"@ =~= ""@ + (seq!['{', '0', '}'] + (".to_string()"@)));
    crate::text::lemma_render_plain(".to_string()"@, a);
    crate::text::lemma_render_digit('0', ".to_string()"@, a);
    crate::text::lemma_render_plain_prefix(""@, seq!['{', '0', '}'] + (".to_string()"@), a);
    assert(""@ + (a[0] + (".to_string()"@)) =~= a[0] + ".to_string()"@);
}

proof fn lemma_rust_parse_i64(a: Seq<Seq<char>>)
    requires
        a.len() == 1,
    ensures
        crate::text::render("{0}.trim().parse::<i64>().unwrap_or(0)"@, a) == a[0] + ".trim().parse::<i64>().unwrap_or(0)"@,
{
    reveal_strlit("{0}.trim().parse::<i64>().unwrap_or(0)");
    reveal_strlit("");
    reveal_strlit(".trim().parse::<i64>().unwrap_or(0)");
    assert("{0}.trim().parse::<i64>().unwrap_or(0)"@ =~= ""@ + (seq!['{', '0', '}'] + (".trim().parse::<i64>().unwrap_or(0)"@)));
    crate::text::lemma_render_plain(".trim().parse::<i64>().unwrap_or(0)"@, a);
    crate::text::lemma_render_digit('0', ".trim().parse::<i64>().unwrap_or(0)"@, a);
    crate::text::lemma_render_plain_prefix(""@, seq!['{', '0', '}'] + (".trim().parse::<i64>().unwrap_or(0)"@), a);
    assert(""@ + (a[0] + (".trim().parse::<i64>().unwrap_or(0)"@)) =~= a[0] + ".trim().parse::<i64>().unwrap_or(0)"@);
}

/// What each builtin does in Rust: the code calls the matching standard
/// method on the function's parameters, in order (absolute value, powers,
/// square root, clamping, case changes, trimming, prefix and suffix tests,
/// replacement, conversion to text, parsing an integer).
pub proof fn law_rust_builtins(ps: Seq<ParamM>)
    ensures
        ps.len() == 1 ==> (builtin_code("abs"@, ps, BackendM::Rust) == Ok::<Seq<char>, Seq<char>>(ps[0].name + ".abs()"@)
            && builtin_code("sqrt"@, ps, BackendM::Rust) == Ok::<Seq<char>, Seq<char>>(ps[0].name + ".sqrt()"@)
            && builtin_code("to_upper"@, ps, BackendM::Rust) == Ok::<Seq<char>, Seq<char>>(ps[0].name + ".to_uppercase()"@)
            && builtin_code("to_lower"@, ps, BackendM::Rust) == Ok::<Seq<char>, Seq<char>>(ps[0].name + ".to_lowercase()"@)
            && builtin_code("trim"@, ps, BackendM::Rust) == Ok::<Seq<char>, Seq<char>>(ps[0].name + ".trim().to_owned()"@)
            && builtin_code("to_string"@, ps, BackendM::Rust) == Ok::<Seq<char>, Seq<char>>(ps[0].name + ".to_string()"@)
            && builtin_code("parse_i64"@, ps, BackendM::Rust) == Ok::<Seq<char>, Seq<char>>(ps[0].name + ".trim().parse::<i64>().unwrap_or(0)"@)),
        ps.len() == 2 ==> (builtin_code("pow"@, ps, BackendM::Rust) == Ok::<Seq<char>, Seq<char>>(ps[0].name + ".pow("@ + ps[1].name + " as u32)"@)
            && builtin_code("powf"@, ps, BackendM::Rust) == Ok::<Seq<char>, Seq<char>>(ps[0].name + ".powf("@ + ps[1].name + ")"@)
            && builtin_code("starts_with"@, ps, BackendM::Rust) == Ok::<Seq<char>, Seq<char>>(ps[0].name + ".starts_with("@ + ps[1].name + ".as_str())"@)
            && builtin_code("ends_with"@, ps, BackendM::Rust) == Ok::<Seq<char>, Seq<char>>(ps[0].name + ".ends_with("@ + ps[1].name + ".as_str())"@)),
        ps.len() == 3 ==> (builtin_code("clamp"@, ps, BackendM::Rust) == Ok::<Seq<char>, Seq<char>>(ps[0].name + ".clamp("@ + ps[1].name + ", "@ + ps[2].name + ")"@)
            && builtin_code("replace_str"@, ps, BackendM::Rust) == Ok::<Seq<char>, Seq<char>>(ps[0].name + ".replace("@ + ps[1].name + ".as_str(), "@ + ps[2].name + ".as_str())"@)),
{
    lemma_rust_templates();
    let a = param_names(ps);
    assert(a.len() == ps.len());
    assert(forall|i: int| 0 <= i < ps.len() ==> #[trigger] a[i] == ps[i].name);
    if ps.len() == 1 { lemma_rust_abs(a); }
    if ps.len() == 2 { lemma_rust_pow(a); }
    if ps.len() == 2 { lemma_rust_powf(a); }
    if ps.len() == 1 { lemma_rust_sqrt(a); }
    if ps.len() == 3 { lemma_rust_clamp(a); }
    if ps.len() == 1 { lemma_rust_to_upper(a); }
    if ps.len() == 1 { lemma_rust_to_lower(a); }
    if ps.len() == 1 { lemma_rust_trim(a); }
    if ps.len() == 2 { lemma_rust_starts_with(a); }
    if ps.len() == 2 { lemma_rust_ends_with(a); }
    if ps.len() == 3 { lemma_rust_replace_str(a); }
    if ps.len() == 1 { lemma_rust_to_string(a); }
    if ps.len() == 1 { lemma_rust_parse_i64(a); }
}

proof fn lemma_builtin_names_distinct()
    ensures
        "pow"@ != "abs"@,
        "powf"@ != "abs"@,
        "powf"@ != "pow"@,
        "sqrt"@ != "abs"@,
        "sqrt"@ != "pow"@,
        "sqrt"@ != "powf"@,
        "clamp"@ != "abs"@,
        "clamp"@ != "pow"@,
        "clamp"@ != "powf"@,
        "clamp"@ != "sqrt"@,
        "to_upper"@ != "abs"@,
        "to_upper"@ != "pow"@,
        "to_upper"@ != "powf"@,
        "to_upper"@ != "sqrt"@,
        "to_upper"@ != "clamp"@,
        "to_lower"@ != "abs"@,
        "to_lower"@ != "pow"@,
        "to_lower"@ != "powf"@,
        "to_lower"@ != "sqrt"@,
        "to_lower"@ != "clamp"@,
        "to_lower"@ != "to_upper"@,
        "trim"@ != "abs"@,
        "trim"@ != "pow"@,
        "trim"@ != "powf"@,
        "trim"@ != "sqrt"@,
        "trim"@ != "clamp"@,
        "trim"@ != "to_upper"@,
        "trim"@ != "to_lower"@,
        "starts_with"@ != "abs"@,
        "starts_with"@ != "pow"@,
        "starts_with"@ != "powf"@,
        "starts_with"@ != "sqrt"@,
        "starts_with"@ != "clamp"@,
        "starts_with"@ != "to_upper"@,
        "starts_with"@ != "to_lower"@,
        "starts_with"@ != "trim"@,
        "ends_with"@ != "abs"@,
        "ends_with"@ != "pow"@,
        "ends_with"@ != "powf"@,
        "ends_with"@ != "sqrt"@,
        "ends_with"@ != "clamp"@,
        "ends_with"@ != "to_upper"@,
        "ends_with"@ != "to_lower"@,
        "ends_with"@ != "trim"@,
        "ends_with"@ != "starts_with"@,
        "replace_str"@ != "abs"@,
        "replace_str"@ != "pow"@,
        "replace_str"@ != "powf"@,
        "replace_str"@ != "sqrt"@,
        "replace_str"@ != "clamp"@,
        "replace_str"@ != "to_upper"@,
        "replace_str"@ != "to_lower"@,
        "replace_str"@ != "trim"@,
        "replace_str"@ != "starts_with"@,
        "replace_str"@ != "ends_with"@,
        "to_string"@ != "abs"@,
        "to_string"@ != "pow"@,
        "to_string"@ != "powf"@,
        "to_string"@ != "sqrt"@,
        "to_string"@ != "clamp"@,
        "to_string"@ != "to_upper"@,
        "to_string"@ != "to_lower"@,
        "to_string"@ != "trim"@,
        "to_string"@ != "starts_with"@,
        "to_string"@ != "ends_with"@,
        "to_string"@ != "replace_str"@,
        "parse_i64"@ != "abs"@,
        "parse_i64"@ != "pow"@,
        "parse_i64"@ != "powf"@,
        "parse_i64"@ != "sqrt"@,
        "parse_i64"@ != "clamp"@,
        "parse_i64"@ != "to_upper"@,
        "parse_i64"@ != "to_lower"@,
        "parse_i64"@ != "trim"@,
        "parse_i64"@ != "starts_with"@,
        "parse_i64"@ != "ends_with"@,
        "parse_i64"@ != "replace_str"@,
        "parse_i64"@ != "to_string"@,
{
    reveal_strlit("abs");
    reveal_strlit("pow");
    reveal_strlit("powf");
    reveal_strlit("sqrt");
    reveal_strlit("clamp");
    reveal_strlit("to_upper");
    reveal_strlit("to_lower");
    reveal_strlit("trim");
    reveal_strlit("starts_with");
    reveal_strlit("ends_with");
    reveal_strlit("replace_str");
    reveal_strlit("to_string");
    reveal_strlit("parse_i64");
    assert("pow"@[0] != "abs"@[0]);
    assert("powf"@.len() != "abs"@.len());
    assert("powf"@.len() != "pow"@.len());
    assert("sqrt"@.len() != "abs"@.len());
    assert("sqrt"@.len() != "pow"@.len());
    assert("sqrt"@[0] != "powf"@[0]);
    assert("clamp"@.len() != "abs"@.len());
    assert("clamp"@.len() != "pow"@.len());
    assert("clamp"@.len() != "powf"@.len());
    assert("clamp"@.len() != "sqrt"@.len());
    assert("to_upper"@.len() != "abs"@.len());
    assert("to_upper"@.len() != "pow"@.len());
    assert("to_upper"@.len() != "powf"@.len());
    assert("to_upper"@.len() != "sqrt"@.len());
    assert("to_upper"@.len() != "clamp"@.len());
    assert("to_lower"@.len() != "abs"@.len());
    assert("to_lower"@.len() != "pow"@.len());
    assert("to_lower"@.len() != "powf"@.len());
    assert("to_lower"@.len() != "sqrt"@.len());
    assert("to_lower"@.len() != "clamp"@.len());
    assert("to_lower"@[3] != "to_upper"@[3]);
    assert("trim"@.len() != "abs"@.len());
    assert("trim"@.len() != "pow"@.len());
    assert("trim"@[0] != "powf"@[0]);
    assert("trim"@[0] != "sqrt"@[0]);
    assert("trim"@.len() != "clamp"@.len());
    assert("trim"@.len() != "to_upper"@.len());
    assert("trim"@.len() != "to_lower"@.len());
    assert("starts_with"@.len() != "abs"@.len());
    assert("starts_with"@.len() != "pow"@.len());
    assert("starts_with"@.len() != "powf"@.len());
    assert("starts_with"@.len() != "sqrt"@.len());
    assert("starts_with"@.len() != "clamp"@.len());
    assert("starts_with"@.len() != "to_upper"@.len());
    assert("starts_with"@.len() != "to_lower"@.len());
    assert("starts_with"@.len() != "trim"@.len());
    assert("ends_with"@.len() != "abs"@.len());
    assert("ends_with"@.len() != "pow"@.len());
    assert("ends_with"@.len() != "powf"@.len());
    assert("ends_with"@.len() != "sqrt"@.len());
    assert("ends_with"@.len() != "clamp"@.len());
    assert("ends_with"@.len() != "to_upper"@.len());
    assert("ends_with"@.len() != "to_lower"@.len());
    assert("ends_with"@.len() != "trim"@.len());
    assert("ends_with"@.len() != "starts_with"@.len());
    assert("replace_str"@.len() != "abs"@.len());
    assert("replace_str"@.len() != "pow"@.len());
    assert("replace_str"@.len() != "powf"@.len());
    assert("replace_str"@.len() != "sqrt"@.len());
    assert("replace_str"@.len() != "clamp"@.len());
    assert("replace_str"@.len() != "to_upper"@.len());
    assert("replace_str"@.len() != "to_lower"@.len());
    assert("replace_str"@.len() != "trim"@.len());
    assert("replace_str"@[0] != "starts_with"@[0]);
    assert("replace_str"@.len() != "ends_with"@.len());
    assert("to_string"@.len() != "abs"@.len());
    assert("to_string"@.len() != "pow"@.len());
    assert("to_string"@.len() != "powf"@.len());
    assert("to_string"@.len() != "sqrt"@.len());
    assert("to_string"@.len() != "clamp"@.len());
    assert("to_string"@.len() != "to_upper"@.len());
    assert("to_string"@.len() != "to_lower"@.len());
    assert("to_string"@.len() != "trim"@.len());
    assert("to_string"@.len() != "starts_with"@.len());
    assert("to_string"@[0] != "ends_with"@[0]);
    assert("to_string"@.len() != "replace_str"@.len());
    assert("parse_i64"@.len() != "abs"@.len());
    assert("parse_i64"@.len() != "pow"@.len());
    assert("parse_i64"@.len() != "powf"@.len());
    assert("parse_i64"@.len() != "sqrt"@.len());
    assert("parse_i64"@.len() != "clamp"@.len());
    assert("parse_i64"@.len() != "to_upper"@.len());
    assert("parse_i64"@.len() != "to_lower"@.len());
    assert("parse_i64"@.len() != "trim"@.len());
    assert("parse_i64"@.len() != "starts_with"@.len());
    assert("parse_i64"@[0] != "ends_with"@[0]);
    assert("parse_i64"@.len() != "replace_str"@.len());
    assert("parse_i64"@[0] != "to_string"@[0]);
}

proof fn lemma_python_templates()
    ensures
        python_tpl("abs"@) == "abs({0})"@,
        python_tpl("pow"@) == "{0} ** int({1})"@,
        python_tpl("powf"@) == "{0} ** {1}"@,
        python_tpl("sqrt"@) == "__import__('math').sqrt({0})"@,
        python_tpl("clamp"@) == "max({1}, min({2}, {0}))"@,
        python_tpl("to_upper"@) == "{0}.upper()"@,
        python_tpl("to_lower"@) == "{0}.lower()"@,
        python_tpl("trim"@) == "{0}.strip()"@,
        python_tpl("starts_with"@) == "{0}.startswith({1})"@,
        python_tpl("ends_with"@) == "{0}.endswith({1})"@,
        python_tpl("replace_str"@) == "{0}.replace({1}, {2})"@,
        python_tpl("to_string"@) == "str({0})"@,
        python_tpl("parse_i64"@) == "int({0}.strip())"@,
{
    lemma_builtin_names_distinct();
}

proof fn lemma_python_abs(a: Seq<Seq<char>>)
    requires
        a.len() == 1,
    ensures
        crate::text::render("abs({0})"@, a) == "abs("@ + a[0] + ")"@,
{
    reveal_strlit("abs(");
    reveal_strlit(")");
    reveal_strlit("abs({0})");
    assert("abs({0})"@ =~= "abs("@ + (seq!['{', '0', '}'] + (")"@)));
    crate::text::lemma_render_plain(")"@, a);
    crate::text::lemma_render_digit('0', ")"@, a);
    crate::text::lemma_render_plain_prefix("abs("@, seq!['{', '0', '}'] + (")"@), a);
    assert("abs("@ + (a[0] + (")"@)) =~= "abs("@ + a[0] + ")"@);
}

proof fn lemma_python_pow(a: Seq<Seq<char>>)
    requires
        a.len() == 2,
    ensures
        crate::text::render("{0} ** int({1})"@, a) == a[0] + " ** int("@ + a[1] + ")"@,
{
    reveal_strlit("");
    reveal_strlit(")");
    reveal_strlit(" ** int(");
    reveal_strlit("{0} ** int({1})");
    assert("{0} ** int({1})"@ =~= ""@ + (seq!['{', '0', '}'] + (" ** int("@ + (seq!['{', '1', '}'] + (")"@)))));
    crate::text::lemma_render_plain(")"@, a);
    crate::text::lemma_render_digit('1', ")"@, a);
    crate::text::lemma_render_plain_prefix(" ** int("@, seq!['{', '1', '}'] + (")"@), a);
    crate::text::lemma_render_digit('0', " ** int("@ + (seq!['{', '1', '}'] + (")"@)), a);
    crate::text::lemma_render_plain_prefix(""@, seq!['{', '0', '}'] + (" ** int("@ + (seq!['{', '1', '}'] + (")"@))), a);
    assert(""@ + (a[0] + (" ** int("@ + (a[1] + (")"@)))) =~= a[0] + " ** int("@ + a[1] + ")"@);
}

proof fn lemma_python_powf(a: Seq<Seq<char>>)
    requires
        a.len() == 2,
    ensures
        crate::text::render("{0} ** {1}"@, a) == a[0] + " ** "@ + a[1],
{
    reveal_strlit("");
    reveal_strlit("{0} ** {1}");
    reveal_strlit(" ** ");
    assert("{0} ** {1}"@ =~= ""@ + (seq!['{', '0', '}'] + (" ** "@ + (seq!['{', '1', '}'] + (""@)))));
    crate::text::lemma_render_plain(""@, a);
    crate::text::lemma_render_digit('1', ""@, a);
    crate::text::lemma_render_plain_prefix(" ** "@, seq!['{', '1', '}'] + (""@), a);
    crate::text::lemma_render_digit('0', " ** "@ + (seq!['{', '1', '}'] + (""@)), a);
    crate::text::lemma_render_plain_prefix(""@, seq!['{', '0', '}'] + (" ** "@ + (seq!['{', '1', '}'] + (""@))), a);
    assert(""@ + (a[0] + (" ** "@ + (a[1] + (""@)))) =~= a[0] + " ** "@ + a[1]);
}

proof fn lemma_python_sqrt(a: Seq<Seq<char>>)
    requires
        a.len() == 1,
    ensures
        crate::text::render("__import__('math').sqrt({0})"@, a) == "__import__('math').sqrt("@ + a[0] + ")"@,
{
    reveal_strlit("__import__('math').sqrt(");
    reveal_strlit(")");
    reveal_strlit("__import__('math').sqrt({0})");
    assert("__import__('math').sqrt({0})"@ =~= "__import__('math').sqrt("@ + (seq!['{', '0', '}'] + (")"@)));
    crate::text::lemma_render_plain(")"@, a);
    crate::text::lemma_render_digit('0', ")"@, a);
    crate::text::lemma_render_plain_prefix("__import__('math').sqrt("@, seq!['{', '0', '}'] + (")"@), a);
    assert("__import__('math').sqrt("@ + (a[0] + (")"@)) =~= "__import__('math').sqrt("@ + a[0] + ")"@);
}

proof fn lemma_python_clamp(a: Seq<Seq<char>>)
    requires
        a.len() == 3,
    ensures
        crate::text::render("max({1}, min({2}, {0}))"@, a) == "max("@ + a[1] + ", min("@ + a[2] + ", "@ + a[0] + "))"@,
{
    reveal_strlit("max({1}, min({2}, {0}))");
    reveal_strlit("max(");
    reveal_strlit(", min(");
    reveal_strlit("))");
    reveal_strlit(", ");
    assert("max({1}, min({2}, {0}))"@ =~= "max("@ + (seq!['{', '1', '}'] + (", min("@ + (seq!['{', '2', '}'] + (", "@ + (seq!['{', '0', '}'] + ("))"@)))))));
    crate::text::lemma_render_plain("))"@, a);
    crate::text::lemma_render_digit('0', "))"@, a);
    crate::text::lemma_render_plain_prefix(", "@, seq!['{', '0', '}'] + ("))"@), a);
    crate::text::lemma_render_digit('2', ", "@ + (seq!['{', '0', '}'] + ("))"@)), a);
    crate::text::lemma_render_plain_prefix(", min("@, seq!['{', '2', '}'] + (", "@ + (seq!['{', '0', '}'] + ("))"@))), a);
    crate::text::lemma_render_digit('1', ", min("@ + (seq!['{', '2', '}'] + (", "@ + (seq!['{', '0', '}'] + ("))"@)))), a);
    crate::text::lemma_render_plain_prefix("max("@, seq!['{', '1', '}'] + (", min("@ + (seq!['{', '2', '}'] + (", "@ + (seq!['{', '0', '}'] + ("))"@))))), a);
    assert("max("@ + (a[1] + (", min("@ + (a[2] + (", "@ + (a[0] + ("))"@)))))) =~= "max("@ + a[1] + ", min("@ + a[2] + ", "@ + a[0] + "))"@);
}

proof fn lemma_python_to_upper(a: Seq<Seq<char>>)
    requires
        a.len() == 1,
    ensures
        crate::text::render("{0}.upper()"@, a) == a[0] + ".upper()"@,
{
    reveal_strlit("");
    reveal_strlit(".upper()");
    reveal_strlit("{0}.upper()");
    assert("{0}.upper()"@ =~= ""@ + (seq!['{', '0', '}'] + (".upper()"@)));
    crate::text::lemma_render_plain(".upper()"@, a);
    crate::text::lemma_render_digit('0', ".upper()"@, a);
    crate::text::lemma_render_plain_prefix(""@, seq!['{', '0', '}'] + (".upper()"@), a);
    assert(""@ + (a[0] + (".upper()"@)) =~= a[0] + ".upper()"@);
}

proof fn lemma_python_to_lower(a: Seq<Seq<char>>)
    requires
        a.len() == 1,
    ensures
        crate::text::render("{0}.lower()"@, a) == a[0] + ".lower()"@,
{
    reveal_strlit("{0}.lower()");
    reveal_strlit("");
    reveal_strlit(".lower()");
    assert("{0}.lower()"@ =~= ""@ + (seq!['{', '0', '}'] + (".lower()"@)));
    crate::text::lemma_render_plain(".lower()"@, a);
    crate::text::lemma_render_digit('0', ".lower()"@, a);
    crate::text::lemma_render_plain_prefix(""@, seq!['{', '0', '}'] + (".lower()"@), a);
    assert(""@ + (a[0] + (".lower()"@)) =~= a[0] + ".lower()"@);
}

proof fn lemma_python_trim(a: Seq<Seq<char>>)
    requires
        a.len() == 1,
    ensures
        crate::text::render("{0}.strip()"@, a) == a[0] + ".strip()"@,
{
    reveal_strlit("");
    reveal_strlit("{0}.strip()");
    reveal_strlit(".strip()");
    assert("{0}.strip()"@ =~= ""@ + (seq!['{', '0', '}'] + (".strip()"@)));
    crate::text::lemma_render_plain(".strip()"@, a);
    crate::text::lemma_render_digit('0', ".strip()"@, a);
    crate::text::lemma_render_plain_prefix(""@, seq!['{', '0', '}'] + (".strip()"@), a);
    assert(""@ + (a[0] + (".strip()"@)) =~= a[0] + ".strip()"@);
}

proof fn lemma_python_starts_with(a: Seq<Seq<char>>)
    requires
        a.len() == 2,
    ensures
        crate::text::render("{0}.startswith({1})"@, a) == a[0] + ".startswith("@ + a[1] + ")"@,
{
    reveal_strlit("");
    reveal_strlit(")");
    reveal_strlit(".startswith(");
    reveal_strlit("{0}.startswith({1})");
    assert("{0}.startswith({1})"@ =~= ""@ + (seq!['{', '0', '}'] + (".startswith("@ + (seq!['{', '1', '}'] + (")"@)))));
    crate::text::lemma_render_plain(")"@, a);
    crate::text::lemma_render_digit('1', ")"@, a);
    crate::text::lemma_render_plain_prefix(".startswith("@, seq!['{', '1', '}'] + (")"@), a);
    crate::text::lemma_render_digit('0', ".startswith("@ + (seq!['{', '1', '}'] + (")"@)), a);
    crate::text::lemma_render_plain_prefix(""@, seq!['{', '0', '}'] + (".startswith("@ + (seq!['{', '1', '}'] + (")"@))), a);
    assert(""@ + (a[0] + (".startswith("@ + (a[1] + (")"@)))) =~= a[0] + ".startswith("@ + a[1] + ")"@);
}

proof fn lemma_python_ends_with(a: Seq<Seq<char>>)
    requires
        a.len() == 2,
    ensures
        crate::text::render("{0}.endswith({1})"@, a) == a[0] + ".endswith("@ + a[1] + ")"@,
{
    reveal_strlit("");
    reveal_strlit(".endswith(");
    reveal_strlit(")");
    reveal_strlit("{0}.endswith({1})");
    assert("{0}.endswith({1})"@ =~= ""@ + (seq!['{', '0', '}'] + (".endswith("@ + (seq!['{', '1', '}'] + (")"@)))));
    crate::text::lemma_render_plain(")"@, a);
    crate::text::lemma_render_digit('1', ")"@, a);
    crate::text::lemma_render_plain_prefix(".endswith("@, seq!['{', '1', '}'] + (")"@), a);
    crate::text::lemma_render_digit('0', ".endswith("@ + (seq!['{', '1', '}'] + (")"@)), a);
    crate::text::lemma_render_plain_prefix(""@, seq!['{', '0', '}'] + (".endswith("@ + (seq!['{', '1', '}'] + (")"@))), a);
    assert(""@ + (a[0] + (".endswith("@ + (a[1] + (")"@)))) =~= a[0] + ".endswith("@ + a[1] + ")"@);
}

proof fn lemma_python_replace_str(a: Seq<Seq<char>>)
    requires
        a.len() == 3,
    ensures
        crate::text::render("{0}.replace({1}, {2})"@, a) == a[0] + ".replace("@ + a[1] + ", "@ + a[2] + ")"@,
{
    reveal_strlit("{0}.replace({1}, {2})");
    reveal_strlit("");
    reveal_strlit(")");
    reveal_strlit(".replace(");
    reveal_strlit(", ");
    assert("{0}.replace({1}, {2})"@ =~= ""@ + (seq!['{', '0', '}'] + (".replace("@ + (seq!['{', '1', '}'] + (", "@ + (seq!['{', '2', '}'] + (")"@)))))));
    crate::text::lemma_render_plain(")"@, a);
    crate::text::lemma_render_digit('2', ")"@, a);
    crate::text::lemma_render_plain_prefix(", "@, seq!['{', '2', '}'] + (")"@), a);
    crate::text::lemma_render_digit('1', ", "@ + (seq!['{', '2', '}'] + (")"@)), a);
    crate::text::lemma_render_plain_prefix(".replace("@, seq!['{', '1', '}'] + (", "@ + (seq!['{', '2', '}'] + (")"@))), a);
    crate::text::lemma_render_digit('0', ".replace("@ + (seq!['{', '1', '}'] + (", "@ + (seq!['{', '2', '}'] + (")"@)))), a);
    crate::text::lemma_render_plain_prefix(""@, seq!['{', '0', '}'] + (".replace("@ + (seq!['{', '1', '}'] + (", "@ + (seq!['{', '2', '}'] + (")"@))))), a);
    assert(""@ + (a[0] + (".replace("@ + (a[1] + (", "@ + (a[2] + (")"@)))))) =~= a[0] + ".replace("@ + a[1] + ", "@ + a[2] + ")"@);
}

proof fn lemma_python_to_string(a: Seq<Seq<char>>)
    requires
        a.len() == 1,
    ensures
        crate::text::render("str({0})"@, a) == "str("@ + a[0] + ")"@,
{
    reveal_strlit("str(");
    reveal_strlit("str({0})");
    reveal_strlit(")");
    assert("str({0})"@ =~= "str("@ + (seq!['{', '0', '}'] + (")"@)));
    crate::text::lemma_render_plain(")"@, a);
    crate::text::lemma_render_digit('0', ")"@, a);
    crate::text::lemma_render_plain_prefix("str("@, seq!['{', '0', '}'] + (")"@), a);
    assert("str("@ + (a[0] + (")"@)) =~= "str("@ + a[0] + ")"@);
}

proof fn lemma_python_parse_i64(a: Seq<Seq<char>>)
    requires
        a.len() == 1,
    ensures
        crate::text::render("int({0}.strip())"@, a) == "int("@ + a[0] + ".strip())"@,
{
    reveal_strlit("int({0}.strip())");
    reveal_strlit(".strip())");
    reveal_strlit("int(");
    assert("int({0}.strip())"@ =~= "int("@ + (seq!['{', '0', '}'] + (".strip())"@)));
    crate::text::lemma_render_plain(".strip())"@, a);
    crate::text::lemma_render_digit('0', ".strip())"@, a);
    crate::text::lemma_render_plain_prefix("int("@, seq!['{', '0', '}'] + (".strip())"@), a);
    assert("int("@ + (a[0] + (".strip())"@)) =~= "int("@ + a[0] + ".strip())"@);
}

/// What each builtin does in Python: the same operations as in Rust, written
/// with Python's own means, on the function's parameters in order.
pub proof fn law_python_builtins(ps: Seq<ParamM>)
    ensures
        ps.len() == 1 ==> (builtin_code("abs"@, ps, BackendM::Python) == Ok::<Seq<char>, Seq<char>>("abs("@ + py_escape(ps[0].name) + ")"@)
            && builtin_code("sqrt"@, ps, BackendM::Python) == Ok::<Seq<char>, Seq<char>>("__import__('math').sqrt("@ + py_escape(ps[0].name) + ")"@)
            && builtin_code("to_upper"@, ps, BackendM::Python) == Ok::<Seq<char>, Seq<char>>(py_escape(ps[0].name) + ".upper()"@)
            && builtin_code("to_lower"@, ps, BackendM::Python) == Ok::<Seq<char>, Seq<char>>(py_escape(ps[0].name) + ".lower()"@)
            && builtin_code("trim"@, ps, BackendM::Python) == Ok::<Seq<char>, Seq<char>>(py_escape(ps[0].name) + ".strip()"@)
            && builtin_code("to_string"@, ps, BackendM::Python) == Ok::<Seq<char>, Seq<char>>("str("@ + py_escape(ps[0].name) + ")"@)
            && builtin_code("parse_i64"@, ps, BackendM::Python) == Ok::<Seq<char>, Seq<char>>("int("@ + py_escape(ps[0].name) + ".strip())"@)),
        ps.len() == 2 ==> (builtin_code("pow"@, ps, BackendM::Python) == Ok::<Seq<char>, Seq<char>>(py_escape(ps[0].name) + " ** int("@ + py_escape(ps[1].name) + ")"@)
            && builtin_code("powf"@, ps, BackendM::Python) == Ok::<Seq<char>, Seq<char>>(py_escape(ps[0].name) + " ** "@ + py_escape(ps[1].name))
            && builtin_code("starts_with"@, ps, BackendM::Python) == Ok::<Seq<char>, Seq<char>>(py_escape(ps[0].name) + ".startswith("@ + py_escape(ps[1].name) + ")"@)
            && builtin_code("ends_with"@, ps, BackendM::Python) == Ok::<Seq<char>, Seq<char>>(py_escape(ps[0].name) + ".endswith("@ + py_escape(ps[1].name) + ")"@)),
        ps.len() == 3 ==> (builtin_code("clamp"@, ps, BackendM::Python) == Ok::<Seq<char>, Seq<char>>("max("@ + py_escape(ps[1].name) + ", min("@ + py_escape(ps[2].name) + ", "@ + py_escape(ps[0].name) + "))"@)
            && builtin_code("replace_str"@, ps, BackendM::Python) == Ok::<Seq<char>, Seq<char>>(py_escape(ps[0].name) + ".replace("@ + py_escape(ps[1].name) + ", "@ + py_escape(ps[2].name) + ")"@)),
{
    lemma_rust_templates();
    lemma_python_templates();
    let a = param_names(ps).map_values(|x: Seq<char>| py_escape(x));
    assert(a.len() == ps.len());
    assert(forall|i: int| 0 <= i < ps.len() ==> #[trigger] a[i] == py_escape(ps[i].name));
    if ps.len() == 1 { lemma_python_abs(a); }
    if ps.len() == 2 { lemma_python_pow(a); }
    if ps.len() == 2 { lemma_python_powf(a); }
    if ps.len() == 1 { lemma_python_sqrt(a); }
    if ps.len() == 3 { lemma_python_clamp(a); }
    if ps.len() == 1 { lemma_python_to_upper(a); }
    if ps.len() == 1 { lemma_python_to_lower(a); }
    if ps.len() == 1 { lemma_python_trim(a); }
    if ps.len() == 2 { lemma_python_starts_with(a); }
    if ps.len() == 2 { lemma_python_ends_with(a); }
    if ps.len() == 3 { lemma_python_replace_str(a); }
    if ps.len() == 1 { lemma_python_to_string(a); }
    if ps.len() == 1 { lemma_python_parse_i64(a); }
}

proof fn lemma_c_templates()
    ensures
        c_tpl("abs"@) == "abs({0})"@,
        c_tpl("pow"@) == "(int64_t)pow((double){0}, (double){1})"@,
        c_tpl("powf"@) == "pow({0}, {1})"@,
        c_tpl("sqrt"@) == "sqrt((double){0})"@,
        c_tpl("clamp"@) == "({0} < {1} ? {1} : ({0} > {2} ? {2} : {0}))"@,
        c_tpl("to_upper"@) == "/* to_upper: iterate with toupper() over {0} */"@,
        c_tpl("to_lower"@) == "/* to_lower: iterate with tolower() over {0} */"@,
        c_tpl("trim"@) == "/* trim: implement manually for {0} */"@,
        c_tpl("starts_with"@) == "(strncmp({0}, {1}, strlen({1})) == 0)"@,
        c_tpl("ends_with"@) == "(strlen({0}) >= strlen({1}) && strcmp({0} + strlen({0}) - strlen({1}), {1}) == 0)"@,
        c_tpl("replace_str"@) == "/* replace_str: implement manually for {0} */"@,
        c_tpl("to_string"@) == "/* to_string: use sprintf for {0} */"@,
        c_tpl("parse_i64"@) == "strtoll({0}, NULL, 10)"@,
{
    lemma_builtin_names_distinct();
}

proof fn lemma_c_abs(a: Seq<Seq<char>>)
    requires
        a.len() == 1,
    ensures
        crate::text::render("abs({0})"@, a) == "abs("@ + a[0] + ")"@,
{
    reveal_strlit("abs(");
    reveal_strlit(")");
    reveal_strlit("abs({0})");
    assert("abs({0})"@ =~= "abs("@ + (seq!['{', '0', '}'] + (")"@)));
    crate::text::lemma_render_plain(")"@, a);
    crate::text::lemma_render_digit('0', ")"@, a);
    crate::text::lemma_render_plain_prefix("abs("@, seq!['{', '0', '}'] + (")"@), a);
    assert("abs("@ + (a[0] + (")"@)) =~= "abs("@ + a[0] + ")"@);
}

proof fn lemma_c_pow(a: Seq<Seq<char>>)
    requires
        a.len() == 2,
    ensures
        crate::text::render("(int64_t)pow((double){0}, (double){1})"@, a) == "(int64_t)pow((double)"@ + a[0] + ", (double)"@ + a[1] + ")"@,
{
    reveal_strlit("(int64_t)pow((double){0}, (double){1})");
    reveal_strlit("(int64_t)pow((double)");
    reveal_strlit(")");
    reveal_strlit(", (double)");
    assert("(int64_t)pow((double){0}, (double){1})"@ =~= "(int64_t)pow((double)"@ + (seq!['{', '0', '}'] + (", (double)"@ + (seq!['{', '1', '}'] + (")"@)))));
    crate::text::lemma_render_plain(")"@, a);
    crate::text::lemma_render_digit('1', ")"@, a);
    crate::text::lemma_render_plain_prefix(", (double)"@, seq!['{', '1', '}'] + (")"@), a);
    crate::text::lemma_render_digit('0', ", (double)"@ + (seq!['{', '1', '}'] + (")"@)), a);
    crate::text::lemma_render_plain_prefix("(int64_t)pow((double)"@, seq!['{', '0', '}'] + (", (double)"@ + (seq!['{', '1', '}'] + (")"@))), a);
    assert("(int64_t)pow((double)"@ + (a[0] + (", (double)"@ + (a[1] + (")"@)))) =~= "(int64_t)pow((double)"@ + a[0] + ", (double)"@ + a[1] + ")"@);
}

proof fn lemma_c_powf(a: Seq<Seq<char>>)
    requires
        a.len() == 2,
    ensures
        crate::text::render("pow({0}, {1})"@, a) == "pow("@ + a[0] + ", "@ + a[1] + ")"@,
{
    reveal_strlit(")");
    reveal_strlit("pow({0}, {1})");
    reveal_strlit("pow(");
    reveal_strlit(", ");
    assert("pow({0}, {1})"@ =~= "pow("@ + (seq!['{', '0', '}'] + (", "@ + (seq!['{', '1', '}'] + (")"@)))));
    crate::text::lemma_render_plain(")"@, a);
    crate::text::lemma_render_digit('1', ")"@, a);
    crate::text::lemma_render_plain_prefix(", "@, seq!['{', '1', '}'] + (")"@), a);
    crate::text::lemma_render_digit('0', ", "@ + (seq!['{', '1', '}'] + (")"@)), a);
    crate::text::lemma_render_plain_prefix("pow("@, seq!['{', '0', '}'] + (", "@ + (seq!['{', '1', '}'] + (")"@))), a);
    assert("pow("@ + (a[0] + (", "@ + (a[1] + (")"@)))) =~= "pow("@ + a[0] + ", "@ + a[1] + ")"@);
}

proof fn lemma_c_sqrt(a: Seq<Seq<char>>)
    requires
        a.len() == 1,
    ensures
        crate::text::render("sqrt((double){0})"@, a) == "sqrt((double)"@ + a[0] + ")"@,
{
    reveal_strlit(")");
    reveal_strlit("sqrt((double){0})");
    reveal_strlit("sqrt((double)");
    assert("sqrt((double){0})"@ =~= "sqrt((double)"@ + (seq!['{', '0', '}'] + (")"@)));
    crate::text::lemma_render_plain(")"@, a);
    crate::text::lemma_render_digit('0', ")"@, a);
    crate::text::lemma_render_plain_prefix("sqrt((double)"@, seq!['{', '0', '}'] + (")"@), a);
    assert("sqrt((double)"@ + (a[0] + (")"@)) =~= "sqrt((double)"@ + a[0] + ")"@);
}

proof fn lemma_c_clamp(a: Seq<Seq<char>>)
    requires
        a.len() == 3,
    ensures
        crate::text::render("({0} < {1} ? {1} : ({0} > {2} ? {2} : {0}))"@, a) == "("@ + a[0] + " < "@ + a[1] + " ? "@ + a[1] + " : ("@ + a[0] + " > "@ + a[2] + " ? "@ + a[2] + " : "@ + a[0] + "))"@,
{
    reveal_strlit(" ? ");
    reveal_strlit(" : (");
    reveal_strlit("(");
    reveal_strlit("({0} < {1} ? {1} : ({0} > {2} ? {2} : {0}))");
    reveal_strlit(" > ");
    reveal_strlit(" < ");
    reveal_strlit(" : ");
    reveal_strlit("))");
    assert("({0} < {1} ? {1} : ({0} > {2} ? {2} : {0}))"@ =~= "("@ + (seq!['{', '0', '}'] + (" < "@ + (seq!['{', '1', '}'] + (" ? "@ + (seq!['{', '1', '}'] + (" : ("@ + (seq!['{', '0', '}'] + (" > "@ + (seq!['{', '2', '}'] + (" ? "@ + (seq!['{', '2', '}'] + (" : "@ + (seq!['{', '0', '}'] + ("))"@)))))))))))))));
    crate::text::lemma_render_plain("))"@, a);
    crate::text::lemma_render_digit('0', "))"@, a);
    crate::text::lemma_render_plain_prefix(" : "@, seq!['{', '0', '}'] + ("))"@), a);
    crate::text::lemma_render_digit('2', " : "@ + (seq!['{', '0', '}'] + ("))"@)), a);
    crate::text::lemma_render_plain_prefix(" ? "@, seq!['{', '2', '}'] + (" : "@ + (seq!['{', '0', '}'] + ("))"@))), a);
    crate::text::lemma_render_digit('2', " ? "@ + (seq!['{', '2', '}'] + (" : "@ + (seq!['{', '0', '}'] + ("))"@)))), a);
    crate::text::lemma_render_plain_prefix(" > "@, seq!['{', '2', '}'] + (" ? "@ + (seq!['{', '2', '}'] + (" : "@ + (seq!['{', '0', '}'] + ("))"@))))), a);
    crate::text::lemma_render_digit('0', " > "@ + (seq!['{', '2', '}'] + (" ? "@ + (seq!['{', '2', '}'] + (" : "@ + (seq!['{', '0', '}'] + ("))"@)))))), a);
    crate::text::lemma_render_plain_prefix(" : ("@, seq!['{', '0', '}'] + (" > "@ + (seq!['{', '2', '}'] + (" ? "@ + (seq!['{', '2', '}'] + (" : "@ + (seq!['{', '0', '}'] + ("))"@))))))), a);
    crate::text::lemma_render_digit('1', " : ("@ + (seq!['{', '0', '}'] + (" > "@ + (seq!['{', '2', '}'] + (" ? "@ + (seq!['{', '2', '}'] + (" : "@ + (seq!['{', '0', '}'] + ("))"@)))))))), a);
    crate::text::lemma_render_plain_prefix(" ? "@, seq!['{', '1', '}'] + (" : ("@ + (seq!['{', '0', '}'] + (" > "@ + (seq!['{', '2', '}'] + (" ? "@ + (seq!['{', '2', '}'] + (" : "@ + (seq!['{', '0', '}'] + ("))"@))))))))), a);
    crate::text::lemma_render_digit('1', " ? "@ + (seq!['{', '1', '}'] + (" : ("@ + (seq!['{', '0', '}'] + (" > "@ + (seq!['{', '2', '}'] + (" ? "@ + (seq!['{', '2', '}'] + (" : "@ + (seq!['{', '0', '}'] + ("))"@)))))))))), a);
    crate::text::lemma_render_plain_prefix(" < "@, seq!['{', '1', '}'] + (" ? "@ + (seq!['{', '1', '}'] + (" : ("@ + (seq!['{', '0', '}'] + (" > "@ + (seq!['{', '2', '}'] + (" ? "@ + (seq!['{', '2', '}'] + (" : "@ + (seq!['{', '0', '}'] + ("))"@))))))))))), a);
    crate::text::lemma_render_digit('0', " < "@ + (seq!['{', '1', '}'] + (" ? "@ + (seq!['{', '1', '}'] + (" : ("@ + (seq!['{', '0', '}'] + (" > "@ + (seq!['{', '2', '}'] + (" ? "@ + (seq!['{', '2', '}'] + (" : "@ + (seq!['{', '0', '}'] + ("))"@)))))))))))), a);
    crate::text::lemma_render_plain_prefix("("@, seq!['{', '0', '}'] + (" < "@ + (seq!['{', '1', '}'] + (" ? "@ + (seq!['{', '1', '}'] + (" : ("@ + (seq!['{', '0', '}'] + (" > "@ + (seq!['{', '2', '}'] + (" ? "@ + (seq!['{', '2', '}'] + (" : "@ + (seq!['{', '0', '}'] + ("))"@))))))))))))), a);
    assert("("@ + (a[0] + (" < "@ + (a[1] + (" ? "@ + (a[1] + (" : ("@ + (a[0] + (" > "@ + (a[2] + (" ? "@ + (a[2] + (" : "@ + (a[0] + ("))"@)))))))))))))) =~= "("@ + a[0] + " < "@ + a[1] + " ? "@ + a[1] + " : ("@ + a[0] + " > "@ + a[2] + " ? "@ + a[2] + " : "@ + a[0] + "))"@);
}

proof fn lemma_c_to_upper(a: Seq<Seq<char>>)
    requires
        a.len() == 1,
    ensures
        crate::text::render("/* to_upper: iterate with toupper() over {0} */"@, a) == "/* to_upper: iterate with toupper() over "@ + a[0] + " */"@,
{
    reveal_strlit(" */");
    reveal_strlit("/* to_upper: iterate with toupper() over ");
    reveal_strlit("/* to_upper: iterate with toupper() over {0} */");
    assert("/* to_upper: iterate with toupper() over {0} */"@ =~= "/* to_upper: iterate with toupper() over "@ + (seq!['{', '0', '}'] + (" */"@)));
    crate::text::lemma_render_plain(" */"@, a);
    crate::text::lemma_render_digit('0', " */"@, a);
    crate::text::lemma_render_plain_prefix("/* to_upper: iterate with toupper() over "@, seq!['{', '0', '}'] + (" */"@), a);
    assert("/* to_upper: iterate with toupper() over "@ + (a[0] + (" */"@)) =~= "/* to_upper: iterate with toupper() over "@ + a[0] + " */"@);
}

proof fn lemma_c_to_lower(a: Seq<Seq<char>>)
    requires
        a.len() == 1,
    ensures
        crate::text::render("/* to_lower: iterate with tolower() over {0} */"@, a) == "/* to_lower: iterate with tolower() over "@ + a[0] + " */"@,
{
    reveal_strlit(" */");
    reveal_strlit("/* to_lower: iterate with tolower() over ");
    reveal_strlit("/* to_lower: iterate with tolower() over {0} */");
    assert("/* to_lower: iterate with tolower() over {0} */"@ =~= "/* to_lower: iterate with tolower() over "@ + (seq!['{', '0', '}'] + (" */"@)));
    crate::text::lemma_render_plain(" */"@, a);
    crate::text::lemma_render_digit('0', " */"@, a);
    crate::text::lemma_render_plain_prefix("/* to_lower: iterate with tolower() over "@, seq!['{', '0', '}'] + (" */"@), a);
    assert("/* to_lower: iterate with tolower() over "@ + (a[0] + (" */"@)) =~= "/* to_lower: iterate with tolower() over "@ + a[0] + " */"@);
}

proof fn lemma_c_trim(a: Seq<Seq<char>>)
    requires
        a.len() == 1,
    ensures
        crate::text::render("/* trim: implement manually for {0} */"@, a) == "/* trim: implement manually for "@ + a[0] + " */"@,
{
    reveal_strlit(" */");
    reveal_strlit("/* trim: implement manually for {0} */");
    reveal_strlit("/* trim: implement manually for ");
    assert("/* trim: implement manually for {0} */"@ =~= "/* trim: implement manually for "@ + (seq!['{', '0', '}'] + (" */"@)));
    crate::text::lemma_render_plain(" */"@, a);
    crate::text::lemma_render_digit('0', " */"@, a);
    crate::text::lemma_render_plain_prefix("/* trim: implement manually for "@, seq!['{', '0', '}'] + (" */"@), a);
    assert("/* trim: implement manually for "@ + (a[0] + (" */"@)) =~= "/* trim: implement manually for "@ + a[0] + " */"@);
}

proof fn lemma_c_starts_with(a: Seq<Seq<char>>)
    requires
        a.len() == 2,
    ensures
        crate::text::render("(strncmp({0}, {1}, strlen({1})) == 0)"@, a) == "(strncmp("@ + a[0] + ", "@ + a[1] + ", strlen("@ + a[1] + ")) == 0)"@,
{
    reveal_strlit("(strncmp({0}, {1}, strlen({1})) == 0)");
    reveal_strlit(", strlen(");
    reveal_strlit("(strncmp(");
    reveal_strlit(")) == 0)");
    reveal_strlit(", ");
    assert("(strncmp({0}, {1}, strlen({1})) == 0)"@ =~= "(strncmp("@ + (seq!['{', '0', '}'] + (", "@ + (seq!['{', '1', '}'] + (", strlen("@ + (seq!['{', '1', '}'] + (")) == 0)"@)))))));
    crate::text::lemma_render_plain(")) == 0)"@, a);
    crate::text::lemma_render_digit('1', ")) == 0)"@, a);
    crate::text::lemma_render_plain_prefix(", strlen("@, seq!['{', '1', '}'] + (")) == 0)"@), a);
    crate::text::lemma_render_digit('1', ", strlen("@ + (seq!['{', '1', '}'] + (")) == 0)"@)), a);
    crate::text::lemma_render_plain_prefix(", "@, seq!['{', '1', '}'] + (", strlen("@ + (seq!['{', '1', '}'] + (")) == 0)"@))), a);
    crate::text::lemma_render_digit('0', ", "@ + (seq!['{', '1', '}'] + (", strlen("@ + (seq!['{', '1', '}'] + (")) == 0)"@)))), a);
    crate::text::lemma_render_plain_prefix("(strncmp("@, seq!['{', '0', '}'] + (", "@ + (seq!['{', '1', '}'] + (", strlen("@ + (seq!['{', '1', '}'] + (")) == 0)"@))))), a);
    assert("(strncmp("@ + (a[0] + (", "@ + (a[1] + (", strlen("@ + (a[1] + (")) == 0)"@)))))) =~= "(strncmp("@ + a[0] + ", "@ + a[1] + ", strlen("@ + a[1] + ")) == 0)"@);
}

proof fn lemma_c_ends_with(a: Seq<Seq<char>>)
    requires
        a.len() == 2,
    ensures
        crate::text::render("(strlen({0}) >= strlen({1}) && strcmp({0} + strlen({0}) - strlen({1}), {1}) == 0)"@, a) == "(strlen("@ + a[0] + ") >= strlen("@ + a[1] + ") && strcmp("@ + a[0] + " + strlen("@ + a[0] + ") - strlen("@ + a[1] + "), "@ + a[1] + ") == 0)"@,
{
    reveal_strlit(") >= strlen(");
    reveal_strlit(" + strlen(");
    reveal_strlit("(strlen({0}) >= strlen({1}) && strcmp({0} + strlen({0}) - strlen({1}), {1}) == 0)");
    reveal_strlit("), ");
    reveal_strlit(") - strlen(");
    reveal_strlit(") && strcmp(");
    reveal_strlit("(strlen(");
    reveal_strlit(") == 0)");
    assert("(strlen({0}) >= strlen({1}) && strcmp({0} + strlen({0}) - strlen({1}), {1}) == 0)"@ =~= "(strlen("@ + (seq!['{', '0', '}'] + (") >= strlen("@ + (seq!['{', '1', '}'] + (") && strcmp("@ + (seq!['{', '0', '}'] + (" + strlen("@ + (seq!['{', '0', '}'] + (") - strlen("@ + (seq!['{', '1', '}'] + ("), "@ + (seq!['{', '1', '}'] + (") == 0)"@)))))))))))));
    crate::text::lemma_render_plain(") == 0)"@, a);
    crate::text::lemma_render_digit('1', ") == 0)"@, a);
    crate::text::lemma_render_plain_prefix("), "@, seq!['{', '1', '}'] + (") == 0)"@), a);
    crate::text::lemma_render_digit('1', "), "@ + (seq!['{', '1', '}'] + (") == 0)"@)), a);
    crate::text::lemma_render_plain_prefix(") - strlen("@, seq!['{', '1', '}'] + ("), "@ + (seq!['{', '1', '}'] + (") == 0)"@))), a);
    crate::text::lemma_render_digit('0', ") - strlen("@ + (seq!['{', '1', '}'] + ("), "@ + (seq!['{', '1', '}'] + (") == 0)"@)))), a);
    crate::text::lemma_render_plain_prefix(" + strlen("@, seq!['{', '0', '}'] + (") - strlen("@ + (seq!['{', '1', '}'] + ("), "@ + (seq!['{', '1', '}'] + (") == 0)"@))))), a);
    crate::text::lemma_render_digit('0', " + strlen("@ + (seq!['{', '0', '}'] + (") - strlen("@ + (seq!['{', '1', '}'] + ("), "@ + (seq!['{', '1', '}'] + (") == 0)"@)))))), a);
    crate::text::lemma_render_plain_prefix(") && strcmp("@, seq!['{', '0', '}'] + (" + strlen("@ + (seq!['{', '0', '}'] + (") - strlen("@ + (seq!['{', '1', '}'] + ("), "@ + (seq!['{', '1', '}'] + (") == 0)"@))))))), a);
    crate::text::lemma_render_digit('1', ") && strcmp("@ + (seq!['{', '0', '}'] + (" + strlen("@ + (seq!['{', '0', '}'] + (") - strlen("@ + (seq!['{', '1', '}'] + ("), "@ + (seq!['{', '1', '}'] + (") == 0)"@)))))))), a);
    crate::text::lemma_render_plain_prefix(") >= strlen("@, seq!['{', '1', '}'] + (") && strcmp("@ + (seq!['{', '0', '}'] + (" + strlen("@ + (seq!['{', '0', '}'] + (") - strlen("@ + (seq!['{', '1', '}'] + ("), "@ + (seq!['{', '1', '}'] + (") == 0)"@))))))))), a);
    crate::text::lemma_render_digit('0', ") >= strlen("@ + (seq!['{', '1', '}'] + (") && strcmp("@ + (seq!['{', '0', '}'] + (" + strlen("@ + (seq!['{', '0', '}'] + (") - strlen("@ + (seq!['{', '1', '}'] + ("), "@ + (seq!['{', '1', '}'] + (") == 0)"@)))))))))), a);
    crate::text::lemma_render_plain_prefix("(strlen("@, seq!['{', '0', '}'] + (") >= strlen("@ + (seq!['{', '1', '}'] + (") && strcmp("@ + (seq!['{', '0', '}'] + (" + strlen("@ + (seq!['{', '0', '}'] + (") - strlen("@ + (seq!['{', '1', '}'] + ("), "@ + (seq!['{', '1', '}'] + (") == 0)"@))))))))))), a);
    assert("(strlen("@ + (a[0] + (") >= strlen("@ + (a[1] + (") && strcmp("@ + (a[0] + (" + strlen("@ + (a[0] + (") - strlen("@ + (a[1] + ("), "@ + (a[1] + (") == 0)"@)))))))))))) =~= "(strlen("@ + a[0] + ") >= strlen("@ + a[1] + ") && strcmp("@ + a[0] + " + strlen("@ + a[0] + ") - strlen("@ + a[1] + "), "@ + a[1] + ") == 0)"@);
}

proof fn lemma_c_replace_str(a: Seq<Seq<char>>)
    requires
        a.len() == 3,
    ensures
        crate::text::render("/* replace_str: implement manually for {0} */"@, a) == "/* replace_str: implement manually for "@ + a[0] + " */"@,
{
    reveal_strlit("/* replace_str: implement manually for {0} */");
    reveal_strlit("/* replace_str: implement manually for ");
    reveal_strlit(" */");
    assert("/* replace_str: implement manually for {0} */"@ =~= "/* replace_str: implement manually for "@ + (seq!['{', '0', '}'] + (" */"@)));
    crate::text::lemma_render_plain(" */"@, a);
    crate::text::lemma_render_digit('0', " */"@, a);
    crate::text::lemma_render_plain_prefix("/* replace_str: implement manually for "@, seq!['{', '0', '}'] + (" */"@), a);
    assert("/* replace_str: implement manually for "@ + (a[0] + (" */"@)) =~= "/* replace_str: implement manually for "@ + a[0] + " */"@);
}

proof fn lemma_c_to_string(a: Seq<Seq<char>>)
    requires
        a.len() == 1,
    ensures
        crate::text::render("/* to_string: use sprintf for {0} */"@, a) == "/* to_string: use sprintf for "@ + a[0] + " */"@,
{
    reveal_strlit(" */");
    reveal_strlit("/* to_string: use sprintf for {0} */");
    reveal_strlit("/* to_string: use sprintf for ");
    assert("/* to_string: use sprintf for {0} */"@ =~= "/* to_string: use sprintf for "@ + (seq!['{', '0', '}'] + (" */"@)));
    crate::text::lemma_render_plain(" */"@, a);
    crate::text::lemma_render_digit('0', " */"@, a);
    crate::text::lemma_render_plain_prefix("/* to_string: use sprintf for "@, seq!['{', '0', '}'] + (" */"@), a);
    assert("/* to_string: use sprintf for "@ + (a[0] + (" */"@)) =~= "/* to_string: use sprintf for "@ + a[0] + " */"@);
}

proof fn lemma_c_parse_i64(a: Seq<Seq<char>>)
    requires
        a.len() == 1,
    ensures
        crate::text::render("strtoll({0}, NULL, 10)"@, a) == "strtoll("@ + a[0] + ", NULL, 10)"@,
{
    reveal_strlit("strtoll(");
    reveal_strlit("strtoll({0}, NULL, 10)");
    reveal_strlit(", NULL, 10)");
    assert("strtoll({0}, NULL, 10)"@ =~= "strtoll("@ + (seq!['{', '0', '}'] + (", NULL, 10)"@)));
    crate::text::lemma_render_plain(", NULL, 10)"@, a);
    crate::text::lemma_render_digit('0', ", NULL, 10)"@, a);
    crate::text::lemma_render_plain_prefix("strtoll("@, seq!['{', '0', '}'] + (", NULL, 10)"@), a);
    assert("strtoll("@ + (a[0] + (", NULL, 10)"@)) =~= "strtoll("@ + a[0] + ", NULL, 10)"@);
}

/// What each builtin does in C: the same operations as in Rust, written
/// with C's own means, on the function's parameters in order.
pub proof fn law_c_builtins(ps: Seq<ParamM>)
    ensures
        ps.len() == 1 ==> (builtin_code("abs"@, ps, BackendM::C) == Ok::<Seq<char>, Seq<char>>("abs("@ + ps[0].name + ")"@)
            && builtin_code("sqrt"@, ps, BackendM::C) == Ok::<Seq<char>, Seq<char>>("sqrt((double)"@ + ps[0].name + ")"@)
            && builtin_code("to_upper"@, ps, BackendM::C) == Ok::<Seq<char>, Seq<char>>("/* to_upper: iterate with toupper() over "@ + ps[0].name + " */"@)
            && builtin_code("to_lower"@, ps, BackendM::C) == Ok::<Seq<char>, Seq<char>>("/* to_lower: iterate with tolower() over "@ + ps[0].name + " */"@)
            && builtin_code("trim"@, ps, BackendM::C) == Ok::<Seq<char>, Seq<char>>("/* trim: implement manually for "@ + ps[0].name + " */"@)
            && builtin_code("to_string"@, ps, BackendM::C) == Ok::<Seq<char>, Seq<char>>("/* to_string: use sprintf for "@ + ps[0].name + " */"@)
            && builtin_code("parse_i64"@, ps, BackendM::C) == Ok::<Seq<char>, Seq<char>>("strtoll("@ + ps[0].name + ", NULL, 10)"@)),
        ps.len() == 2 ==> (builtin_code("pow"@, ps, BackendM::C) == Ok::<Seq<char>, Seq<char>>("(int64_t)pow((double)"@ + ps[0].name + ", (double)"@ + ps[1].name + ")"@)
            && builtin_code("powf"@, ps, BackendM::C) == Ok::<Seq<char>, Seq<char>>("pow("@ + ps[0].name + ", "@ + ps[1].name + ")"@)
            && builtin_code("starts_with"@, ps, BackendM::C) == Ok::<Seq<char>, Seq<char>>("(strncmp("@ + ps[0].name + ", "@ + ps[1].name + ", strlen("@ + ps[1].name + ")) == 0)"@)
            && builtin_code("ends_with"@, ps, BackendM::C) == Ok::<Seq<char>, Seq<char>>("(strlen("@ + ps[0].name + ") >= strlen("@ + ps[1].name + ") && strcmp("@ + ps[0].name + " + strlen("@ + ps[0].name + ") - strlen("@ + ps[1].name + "), "@ + ps[1].name + ") == 0)"@)),
        ps.len() == 3 ==> (builtin_code("clamp"@, ps, BackendM::C) == Ok::<Seq<char>, Seq<char>>("("@ + ps[0].name + " < "@ + ps[1].name + " ? "@ + ps[1].name + " : ("@ + ps[0].name + " > "@ + ps[2].name + " ? "@ + ps[2].name + " : "@ + ps[0].name + "))"@)
            && builtin_code("replace_str"@, ps, BackendM::C) == Ok::<Seq<char>, Seq<char>>("/* replace_str: implement manually for "@ + ps[0].name + " */"@)),
{
    lemma_rust_templates();
    lemma_c_templates();
    let a = param_names(ps);
    assert(a.len() == ps.len());
    assert(forall|i: int| 0 <= i < ps.len() ==> #[trigger] a[i] == ps[i].name);
    if ps.len() == 1 { lemma_c_abs(a); }
    if ps.len() == 2 { lemma_c_pow(a); }
    if ps.len() == 2 { lemma_c_powf(a); }
    if ps.len() == 1 { lemma_c_sqrt(a); }
    if ps.len() == 3 { lemma_c_clamp(a); }
    if ps.len() == 1 { lemma_c_to_upper(a); }
    if ps.len() == 1 { lemma_c_to_lower(a); }
    if ps.len() == 1 { lemma_c_trim(a); }
    if ps.len() == 2 { lemma_c_starts_with(a); }
    if ps.len() == 2 { lemma_c_ends_with(a); }
    if ps.len() == 3 { lemma_c_replace_str(a); }
    if ps.len() == 1 { lemma_c_to_string(a); }
    if ps.len() == 1 { lemma_c_parse_i64(a); }
}

proof fn lemma_cpp_templates()
    ensures
        cpp_tpl("abs"@) == "std::abs({0})"@,
        cpp_tpl("pow"@) == "(decltype({0}))std::pow((double){0}, (double){1})"@,
        cpp_tpl("powf"@) == "std::pow({0}, {1})"@,
        cpp_tpl("sqrt"@) == "std::sqrt({0})"@,
        cpp_tpl("clamp"@) == "std::clamp({0}, {1}, {2})"@,
        cpp_tpl("to_upper"@) == "[&](){{ std::string _s({0}); std::transform(_s.begin(),_s.end(),_s.begin(),::toupper); return _s; }}()"@,
        cpp_tpl("to_lower"@) == "[&](){{ std::string _s({0}); std::transform(_s.begin(),_s.end(),_s.begin(),::tolower); return _s; }}()"@,
        cpp_tpl("trim"@) == "[&](){{ std::string _s({0}); _s.erase(0,_s.find_first_not_of(\" \\t\\n\\r\")); _s.erase(_s.find_last_not_of(\" \\t\\n\\r\")+1); return _s; }}()"@,
        cpp_tpl("starts_with"@) == "{0}.rfind({1}, 0) == 0"@,
        cpp_tpl("ends_with"@) == "({0}.size() >= {1}.size() && {0}.compare({0}.size()-{1}.size(), {1}.size(), {1}) == 0)"@,
        cpp_tpl("replace_str"@) == "[&](){{ std::string _s={0}; std::size_t pos=0; while((pos=_s.find({1},pos))!=std::string::npos) {{ _s.replace(pos,{1}.size(),{2}); pos+={2}.size(); }} return _s; }}()"@,
        cpp_tpl("to_string"@) == "std::to_string({0})"@,
        cpp_tpl("parse_i64"@) == "std::stoll({0})"@,
{
    lemma_builtin_names_distinct();
}

proof fn lemma_cpp_abs(a: Seq<Seq<char>>)
    requires
        a.len() == 1,
    ensures
        crate::text::render("std::abs({0})"@, a) == "std::abs("@ + a[0] + ")"@,
{
    reveal_strlit("std::abs(");
    reveal_strlit(")");
    reveal_strlit("std::abs({0})");
    assert("std::abs({0})"@ =~= "std::abs("@ + (seq!['{', '0', '}'] + (")"@)));
    crate::text::lemma_render_plain(")"@, a);
    crate::text::lemma_render_digit('0', ")"@, a);
    crate::text::lemma_render_plain_prefix("std::abs("@, seq!['{', '0', '}'] + (")"@), a);
    assert("std::abs("@ + (a[0] + (")"@)) =~= "std::abs("@ + a[0] + ")"@);
}

proof fn lemma_cpp_pow(a: Seq<Seq<char>>)
    requires
        a.len() == 2,
    ensures
        crate::text::render("(decltype({0}))std::pow((double){0}, (double){1})"@, a) == "(decltype("@ + a[0] + "))std::pow((double)"@ + a[0] + ", (double)"@ + a[1] + ")"@,
{
    reveal_strlit(")");
    reveal_strlit("))std::pow((double)");
    reveal_strlit(", (double)");
    reveal_strlit("(decltype({0}))std::pow((double){0}, (double){1})");
    reveal_strlit("(decltype(");
    assert("(decltype({0}))std::pow((double){0}, (double){1})"@ =~= "(decltype("@ + (seq!['{', '0', '}'] + ("))std::pow((double)"@ + (seq!['{', '0', '}'] + (", (double)"@ + (seq!['{', '1', '}'] + (")"@)))))));
    crate::text::lemma_render_plain(")"@, a);
    crate::text::lemma_render_digit('1', ")"@, a);
    crate::text::lemma_render_plain_prefix(", (double)"@, seq!['{', '1', '}'] + (")"@), a);
    crate::text::lemma_render_digit('0', ", (double)"@ + (seq!['{', '1', '}'] + (")"@)), a);
    crate::text::lemma_render_plain_prefix("))std::pow((double)"@, seq!['{', '0', '}'] + (", (double)"@ + (seq!['{', '1', '}'] + (")"@))), a);
    crate::text::lemma_render_digit('0', "))std::pow((double)"@ + (seq!['{', '0', '}'] + (", (double)"@ + (seq!['{', '1', '}'] + (")"@)))), a);
    crate::text::lemma_render_plain_prefix("(decltype("@, seq!['{', '0', '}'] + ("))std::pow((double)"@ + (seq!['{', '0', '}'] + (", (double)"@ + (seq!['{', '1', '}'] + (")"@))))), a);
    assert("(decltype("@ + (a[0] + ("))std::pow((double)"@ + (a[0] + (", (double)"@ + (a[1] + (")"@)))))) =~= "(decltype("@ + a[0] + "))std::pow((double)"@ + a[0] + ", (double)"@ + a[1] + ")"@);
}

proof fn lemma_cpp_powf(a: Seq<Seq<char>>)
    requires
        a.len() == 2,
    ensures
        crate::text::render("std::pow({0}, {1})"@, a) == "std::pow("@ + a[0] + ", "@ + a[1] + ")"@,
{
    reveal_strlit("std::pow({0}, {1})");
    reveal_strlit("std::pow(");
    reveal_strlit(")");
    reveal_strlit(", ");
    assert("std::pow({0}, {1})"@ =~= "std::pow("@ + (seq!['{', '0', '}'] + (", "@ + (seq!['{', '1', '}'] + (")"@)))));
    crate::text::lemma_render_plain(")"@, a);
    crate::text::lemma_render_digit('1', ")"@, a);
    crate::text::lemma_render_plain_prefix(", "@, seq!['{', '1', '}'] + (")"@), a);
    crate::text::lemma_render_digit('0', ", "@ + (seq!['{', '1', '}'] + (")"@)), a);
    crate::text::lemma_render_plain_prefix("std::pow("@, seq!['{', '0', '}'] + (", "@ + (seq!['{', '1', '}'] + (")"@))), a);
    assert("std::pow("@ + (a[0] + (", "@ + (a[1] + (")"@)))) =~= "std::pow("@ + a[0] + ", "@ + a[1] + ")"@);
}

proof fn lemma_cpp_sqrt(a: Seq<Seq<char>>)
    requires
        a.len() == 1,
    ensures
        crate::text::render("std::sqrt({0})"@, a) == "std::sqrt("@ + a[0] + ")"@,
{
    reveal_strlit(")");
    reveal_strlit("std::sqrt(");
    reveal_strlit("std::sqrt({0})");
    assert("std::sqrt({0})"@ =~= "std::sqrt("@ + (seq!['{', '0', '}'] + (")"@)));
    crate::text::lemma_render_plain(")"@, a);
    crate::text::lemma_render_digit('0', ")"@, a);
    crate::text::lemma_render_plain_prefix("std::sqrt("@, seq!['{', '0', '}'] + (")"@), a);
    assert("std::sqrt("@ + (a[0] + (")"@)) =~= "std::sqrt("@ + a[0] + ")"@);
}

proof fn lemma_cpp_clamp(a: Seq<Seq<char>>)
    requires
        a.len() == 3,
    ensures
        crate::text::render("std::clamp({0}, {1}, {2})"@, a) == "std::clamp("@ + a[0] + ", "@ + a[1] + ", "@ + a[2] + ")"@,
{
    reveal_strlit("std::clamp({0}, {1}, {2})");
    reveal_strlit(")");
    reveal_strlit("std::clamp(");
    reveal_strlit(", ");
    assert("std::clamp({0}, {1}, {2})"@ =~= "std::clamp("@ + (seq!['{', '0', '}'] + (", "@ + (seq!['{', '1', '}'] + (", "@ + (seq!['{', '2', '}'] + (")"@)))))));
    crate::text::lemma_render_plain(")"@, a);
    crate::text::lemma_render_digit('2', ")"@, a);
    crate::text::lemma_render_plain_prefix(", "@, seq!['{', '2', '}'] + (")"@), a);
    crate::text::lemma_render_digit('1', ", "@ + (seq!['{', '2', '}'] + (")"@)), a);
    crate::text::lemma_render_plain_prefix(", "@, seq!['{', '1', '}'] + (", "@ + (seq!['{', '2', '}'] + (")"@))), a);
    crate::text::lemma_render_digit('0', ", "@ + (seq!['{', '1', '}'] + (", "@ + (seq!['{', '2', '}'] + (")"@)))), a);
    crate::text::lemma_render_plain_prefix("std::clamp("@, seq!['{', '0', '}'] + (", "@ + (seq!['{', '1', '}'] + (", "@ + (seq!['{', '2', '}'] + (")"@))))), a);
    assert("std::clamp("@ + (a[0] + (", "@ + (a[1] + (", "@ + (a[2] + (")"@)))))) =~= "std::clamp("@ + a[0] + ", "@ + a[1] + ", "@ + a[2] + ")"@);
}

proof fn lemma_cpp_to_upper(a: Seq<Seq<char>>)
    requires
        a.len() == 1,
    ensures
        crate::text::render("[&](){{ std::string _s({0}); std::transform(_s.begin(),_s.end(),_s.begin(),::toupper); return _s; }}()"@, a) == "[&](){ std::string _s("@ + a[0] + "); std::transform(_s.begin(),_s.end(),_s.begin(),::toupper); return _s; }()"@,
{
    reveal_strlit(" std::string _s(");
    reveal_strlit("[&]()");
    reveal_strlit("); std::transform(_s.begin(),_s.end(),_s.begin(),::toupper); return _s; ");
    reveal_strlit("[&](){{ std::string _s({0}); std::transform(_s.begin(),_s.end(),_s.begin(),::toupper); return _s; }}()");
    reveal_strlit("()");
    reveal_strlit("[&](){ std::string _s(");
    reveal_strlit("); std::transform(_s.begin(),_s.end(),_s.begin(),::toupper); return _s; }()");
    assert("[&](){{ std::string _s({0}); std::transform(_s.begin(),_s.end(),_s.begin(),::toupper); return _s; }}()"@ =~= "[&]()"@ + (seq!['{', '{'] + (" std::string _s("@ + (seq!['{', '0', '}'] + ("); std::transform(_s.begin(),_s.end(),_s.begin(),::toupper); return _s; "@ + (seq!['}', '}'] + ("()"@)))))));
    crate::text::lemma_render_plain("()"@, a);
    crate::text::lemma_render_escape('}', "()"@, a);
    crate::text::lemma_render_plain_prefix("); std::transform(_s.begin(),_s.end(),_s.begin(),::toupper); return _s; "@, seq!['}', '}'] + ("()"@), a);
    crate::text::lemma_render_digit('0', "); std::transform(_s.begin(),_s.end(),_s.begin(),::toupper); return _s; "@ + (seq!['}', '}'] + ("()"@)), a);
    crate::text::lemma_render_plain_prefix(" std::string _s("@, seq!['{', '0', '}'] + ("); std::transform(_s.begin(),_s.end(),_s.begin(),::toupper); return _s; "@ + (seq!['}', '}'] + ("()"@))), a);
    crate::text::lemma_render_escape('{', " std::string _s("@ + (seq!['{', '0', '}'] + ("); std::transform(_s.begin(),_s.end(),_s.begin(),::toupper); return _s; "@ + (seq!['}', '}'] + ("()"@)))), a);
    crate::text::lemma_render_plain_prefix("[&]()"@, seq!['{', '{'] + (" std::string _s("@ + (seq!['{', '0', '}'] + ("); std::transform(_s.begin(),_s.end(),_s.begin(),::toupper); return _s; "@ + (seq!['}', '}'] + ("()"@))))), a);
    assert("[&]()"@ + (seq!['{'] + (" std::string _s("@ + (a[0] + ("); std::transform(_s.begin(),_s.end(),_s.begin(),::toupper); return _s; "@ + (seq!['}'] + ("()"@)))))) =~= "[&](){ std::string _s("@ + a[0] + "); std::transform(_s.begin(),_s.end(),_s.begin(),::toupper); return _s; }()"@);
}

proof fn lemma_cpp_to_lower(a: Seq<Seq<char>>)
    requires
        a.len() == 1,
    ensures
        crate::text::render("[&](){{ std::string _s({0}); std::transform(_s.begin(),_s.end(),_s.begin(),::tolower); return _s; }}()"@, a) == "[&](){ std::string _s("@ + a[0] + "); std::transform(_s.begin(),_s.end(),_s.begin(),::tolower); return _s; }()"@,
{
    reveal_strlit(" std::string _s(");
    reveal_strlit("[&]()");
    reveal_strlit("); std::transform(_s.begin(),_s.end(),_s.begin(),::tolower); return _s; ");
    reveal_strlit("[&](){{ std::string _s({0}); std::transform(_s.begin(),_s.end(),_s.begin(),::tolower); return _s; }}()");
    reveal_strlit("()");
    reveal_strlit("); std::transform(_s.begin(),_s.end(),_s.begin(),::tolower); return _s; }()");
    reveal_strlit("[&](){ std::string _s(");
    assert("[&](){{ std::string _s({0}); std::transform(_s.begin(),_s.end(),_s.begin(),::tolower); return _s; }}()"@ =~= "[&]()"@ + (seq!['{', '{'] + (" std::string _s("@ + (seq!['{', '0', '}'] + ("); std::transform(_s.begin(),_s.end(),_s.begin(),::tolower); return _s; "@ + (seq!['}', '}'] + ("()"@)))))));
    crate::text::lemma_render_plain("()"@, a);
    crate::text::lemma_render_escape('}', "()"@, a);
    crate::text::lemma_render_plain_prefix("); std::transform(_s.begin(),_s.end(),_s.begin(),::tolower); return _s; "@, seq!['}', '}'] + ("()"@), a);
    crate::text::lemma_render_digit('0', "); std::transform(_s.begin(),_s.end(),_s.begin(),::tolower); return _s; "@ + (seq!['}', '}'] + ("()"@)), a);
    crate::text::lemma_render_plain_prefix(" std::string _s("@, seq!['{', '0', '}'] + ("); std::transform(_s.begin(),_s.end(),_s.begin(),::tolower); return _s; "@ + (seq!['}', '}'] + ("()"@))), a);
    crate::text::lemma_render_escape('{', " std::string _s("@ + (seq!['{', '0', '}'] + ("); std::transform(_s.begin(),_s.end(),_s.begin(),::tolower); return _s; "@ + (seq!['}', '}'] + ("()"@)))), a);
    crate::text::lemma_render_plain_prefix("[&]()"@, seq!['{', '{'] + (" std::string _s("@ + (seq!['{', '0', '}'] + ("); std::transform(_s.begin(),_s.end(),_s.begin(),::tolower); return _s; "@ + (seq!['}', '}'] + ("()"@))))), a);
    assert("[&]()"@ + (seq!['{'] + (" std::string _s("@ + (a[0] + ("); std::transform(_s.begin(),_s.end(),_s.begin(),::tolower); return _s; "@ + (seq!['}'] + ("()"@)))))) =~= "[&](){ std::string _s("@ + a[0] + "); std::transform(_s.begin(),_s.end(),_s.begin(),::tolower); return _s; }()"@);
}

proof fn lemma_cpp_trim(a: Seq<Seq<char>>)
    requires
        a.len() == 1,
    ensures
        crate::text::render("[&](){{ std::string _s({0}); _s.erase(0,_s.find_first_not_of(\" \\t\\n\\r\")); _s.erase(_s.find_last_not_of(\" \\t\\n\\r\")+1); return _s; }}()"@, a) == "[&](){ std::string _s("@ + a[0] + "); _s.erase(0,_s.find_first_not_of(\" \\t\\n\\r\")); _s.erase(_s.find_last_not_of(\" \\t\\n\\r\")+1); return _s; }()"@,
{
    reveal_strlit("); _s.erase(0,_s.find_first_not_of(\" \\t\\n\\r\")); _s.erase(_s.find_last_not_of(\" \\t\\n\\r\")+1); return _s; ");
    reveal_strlit(" std::string _s(");
    reveal_strlit("[&]()");
    reveal_strlit("[&](){{ std::string _s({0}); _s.erase(0,_s.find_first_not_of(\" \\t\\n\\r\")); _s.erase(_s.find_last_not_of(\" \\t\\n\\r\")+1); return _s; }}()");
    reveal_strlit("()");
    reveal_strlit("[&](){ std::string _s(");
    reveal_strlit("); _s.erase(0,_s.find_first_not_of(\" \\t\\n\\r\")); _s.erase(_s.find_last_not_of(\" \\t\\n\\r\")+1); return _s; }()");
    assert("[&](){{ std::string _s({0}); _s.erase(0,_s.find_first_not_of(\" \\t\\n\\r\")); _s.erase(_s.find_last_not_of(\" \\t\\n\\r\")+1); return _s; }}()"@ =~= "[&]()"@ + (seq!['{', '{'] + (" std::string _s("@ + (seq!['{', '0', '}'] + ("); _s.erase(0,_s.find_first_not_of(\" \\t\\n\\r\")); _s.erase(_s.find_last_not_of(\" \\t\\n\\r\")+1); return _s; "@ + (seq!['}', '}'] + ("()"@)))))));
    crate::text::lemma_render_plain("()"@, a);
    crate::text::lemma_render_escape('}', "()"@, a);
    crate::text::lemma_render_plain_prefix("); _s.erase(0,_s.find_first_not_of(\" \\t\\n\\r\")); _s.erase(_s.find_last_not_of(\" \\t\\n\\r\")+1); return _s; "@, seq!['}', '}'] + ("()"@), a);
    crate::text::lemma_render_digit('0', "); _s.erase(0,_s.find_first_not_of(\" \\t\\n\\r\")); _s.erase(_s.find_last_not_of(\" \\t\\n\\r\")+1); return _s; "@ + (seq!['}', '}'] + ("()"@)), a);
    crate::text::lemma_render_plain_prefix(" std::string _s("@, seq!['{', '0', '}'] + ("); _s.erase(0,_s.find_first_not_of(\" \\t\\n\\r\")); _s.erase(_s.find_last_not_of(\" \\t\\n\\r\")+1); return _s; "@ + (seq!['}', '}'] + ("()"@))), a);
    crate::text::lemma_render_escape('{', " std::string _s("@ + (seq!['{', '0', '}'] + ("); _s.erase(0,_s.find_first_not_of(\" \\t\\n\\r\")); _s.erase(_s.find_last_not_of(\" \\t\\n\\r\")+1); return _s; "@ + (seq!['}', '}'] + ("()"@)))), a);
    crate::text::lemma_render_plain_prefix("[&]()"@, seq!['{', '{'] + (" std::string _s("@ + (seq!['{', '0', '}'] + ("); _s.erase(0,_s.find_first_not_of(\" \\t\\n\\r\")); _s.erase(_s.find_last_not_of(\" \\t\\n\\r\")+1); return _s; "@ + (seq!['}', '}'] + ("()"@))))), a);
    assert("[&]()"@ + (seq!['{'] + (" std::string _s("@ + (a[0] + ("); _s.erase(0,_s.find_first_not_of(\" \\t\\n\\r\")); _s.erase(_s.find_last_not_of(\" \\t\\n\\r\")+1); return _s; "@ + (seq!['}'] + ("()"@)))))) =~= "[&](){ std::string _s("@ + a[0] + "); _s.erase(0,_s.find_first_not_of(\" \\t\\n\\r\")); _s.erase(_s.find_last_not_of(\" \\t\\n\\r\")+1); return _s; }()"@);
}

proof fn lemma_cpp_starts_with(a: Seq<Seq<char>>)
    requires
        a.len() == 2,
    ensures
        crate::text::render("{0}.rfind({1}, 0) == 0"@, a) == a[0] + ".rfind("@ + a[1] + ", 0) == 0"@,
{
    reveal_strlit("");
    reveal_strlit(".rfind(");
    reveal_strlit(", 0) == 0");
    reveal_strlit("{0}.rfind({1}, 0) == 0");
    assert("{0}.rfind({1}, 0) == 0"@ =~= ""@ + (seq!['{', '0', '}'] + (".rfind("@ + (seq!['{', '1', '}'] + (", 0) == 0"@)))));
    crate::text::lemma_render_plain(", 0) == 0"@, a);
    crate::text::lemma_render_digit('1', ", 0) == 0"@, a);
    crate::text::lemma_render_plain_prefix(".rfind("@, seq!['{', '1', '}'] + (", 0) == 0"@), a);
    crate::text::lemma_render_digit('0', ".rfind("@ + (seq!['{', '1', '}'] + (", 0) == 0"@)), a);
    crate::text::lemma_render_plain_prefix(""@, seq!['{', '0', '}'] + (".rfind("@ + (seq!['{', '1', '}'] + (", 0) == 0"@))), a);
    assert(""@ + (a[0] + (".rfind("@ + (a[1] + (", 0) == 0"@)))) =~= a[0] + ".rfind("@ + a[1] + ", 0) == 0"@);
}

proof fn lemma_cpp_ends_with(a: Seq<Seq<char>>)
    requires
        a.len() == 2,
    ensures
        crate::text::render("({0}.size() >= {1}.size() && {0}.compare({0}.size()-{1}.size(), {1}.size(), {1}) == 0)"@, a) == "("@ + a[0] + ".size() >= "@ + a[1] + ".size() && "@ + a[0] + ".compare("@ + a[0] + ".size()-"@ + a[1] + ".size(), "@ + a[1] + ".size(), "@ + a[1] + ") == 0)"@,
{
    reveal_strlit(".size()-");
    reveal_strlit("({0}.size() >= {1}.size() && {0}.compare({0}.size()-{1}.size(), {1}.size(), {1}) == 0)");
    reveal_strlit(".size() >= ");
    reveal_strlit(".size() && ");
    reveal_strlit("(");
    reveal_strlit(".compare(");
    reveal_strlit(".size(), ");
    reveal_strlit(") == 0)");
    assert("({0}.size() >= {1}.size() && {0}.compare({0}.size()-{1}.size(), {1}.size(), {1}) == 0)"@ =~= "("@ + (seq!['{', '0', '}'] + (".size() >= "@ + (seq!['{', '1', '}'] + (".size() && "@ + (seq!['{', '0', '}'] + (".compare("@ + (seq!['{', '0', '}'] + (".size()-"@ + (seq!['{', '1', '}'] + (".size(), "@ + (seq!['{', '1', '}'] + (".size(), "@ + (seq!['{', '1', '}'] + (") == 0)"@)))))))))))))));
    crate::text::lemma_render_plain(") == 0)"@, a);
    crate::text::lemma_render_digit('1', ") == 0)"@, a);
    crate::text::lemma_render_plain_prefix(".size(), "@, seq!['{', '1', '}'] + (") == 0)"@), a);
    crate::text::lemma_render_digit('1', ".size(), "@ + (seq!['{', '1', '}'] + (") == 0)"@)), a);
    crate::text::lemma_render_plain_prefix(".size(), "@, seq!['{', '1', '}'] + (".size(), "@ + (seq!['{', '1', '}'] + (") == 0)"@))), a);
    crate::text::lemma_render_digit('1', ".size(), "@ + (seq!['{', '1', '}'] + (".size(), "@ + (seq!['{', '1', '}'] + (") == 0)"@)))), a);
    crate::text::lemma_render_plain_prefix(".size()-"@, seq!['{', '1', '}'] + (".size(), "@ + (seq!['{', '1', '}'] + (".size(), "@ + (seq!['{', '1', '}'] + (") == 0)"@))))), a);
    crate::text::lemma_render_digit('0', ".size()-"@ + (seq!['{', '1', '}'] + (".size(), "@ + (seq!['{', '1', '}'] + (".size(), "@ + (seq!['{', '1', '}'] + (") == 0)"@)))))), a);
    crate::text::lemma_render_plain_prefix(".compare("@, seq!['{', '0', '}'] + (".size()-"@ + (seq!['{', '1', '}'] + (".size(), "@ + (seq!['{', '1', '}'] + (".size(), "@ + (seq!['{', '1', '}'] + (") == 0)"@))))))), a);
    crate::text::lemma_render_digit('0', ".compare("@ + (seq!['{', '0', '}'] + (".size()-"@ + (seq!['{', '1', '}'] + (".size(), "@ + (seq!['{', '1', '}'] + (".size(), "@ + (seq!['{', '1', '}'] + (") == 0)"@)))))))), a);
    crate::text::lemma_render_plain_prefix(".size() && "@, seq!['{', '0', '}'] + (".compare("@ + (seq!['{', '0', '}'] + (".size()-"@ + (seq!['{', '1', '}'] + (".size(), "@ + (seq!['{', '1', '}'] + (".size(), "@ + (seq!['{', '1', '}'] + (") == 0)"@))))))))), a);
    crate::text::lemma_render_digit('1', ".size() && "@ + (seq!['{', '0', '}'] + (".compare("@ + (seq!['{', '0', '}'] + (".size()-"@ + (seq!['{', '1', '}'] + (".size(), "@ + (seq!['{', '1', '}'] + (".size(), "@ + (seq!['{', '1', '}'] + (") == 0)"@)))))))))), a);
    crate::text::lemma_render_plain_prefix(".size() >= "@, seq!['{', '1', '}'] + (".size() && "@ + (seq!['{', '0', '}'] + (".compare("@ + (seq!['{', '0', '}'] + (".size()-"@ + (seq!['{', '1', '}'] + (".size(), "@ + (seq!['{', '1', '}'] + (".size(), "@ + (seq!['{', '1', '}'] + (") == 0)"@))))))))))), a);
    crate::text::lemma_render_digit('0', ".size() >= "@ + (seq!['{', '1', '}'] + (".size() && "@ + (seq!['{', '0', '}'] + (".compare("@ + (seq!['{', '0', '}'] + (".size()-"@ + (seq!['{', '1', '}'] + (".size(), "@ + (seq!['{', '1', '}'] + (".size(), "@ + (seq!['{', '1', '}'] + (") == 0)"@)))))))))))), a);
    crate::text::lemma_render_plain_prefix("("@, seq!['{', '0', '}'] + (".size() >= "@ + (seq!['{', '1', '}'] + (".size() && "@ + (seq!['{', '0', '}'] + (".compare("@ + (seq!['{', '0', '}'] + (".size()-"@ + (seq!['{', '1', '}'] + (".size(), "@ + (seq!['{', '1', '}'] + (".size(), "@ + (seq!['{', '1', '}'] + (") == 0)"@))))))))))))), a);
    assert("("@ + (a[0] + (".size() >= "@ + (a[1] + (".size() && "@ + (a[0] + (".compare("@ + (a[0] + (".size()-"@ + (a[1] + (".size(), "@ + (a[1] + (".size(), "@ + (a[1] + (") == 0)"@)))))))))))))) =~= "("@ + a[0] + ".size() >= "@ + a[1] + ".size() && "@ + a[0] + ".compare("@ + a[0] + ".size()-"@ + a[1] + ".size(), "@ + a[1] + ".size(), "@ + a[1] + ") == 0)"@);
}

proof fn lemma_cpp_replace_str(a: Seq<Seq<char>>)
    requires
        a.len() == 3,
    ensures
        crate::text::render("[&](){{ std::string _s={0}; std::size_t pos=0; while((pos=_s.find({1},pos))!=std::string::npos) {{ _s.replace(pos,{1}.size(),{2}); pos+={2}.size(); }} return _s; }}()"@, a) == "[&](){ std::string _s="@ + a[0] + "; std::size_t pos=0; while((pos=_s.find("@ + a[1] + ",pos))!=std::string::npos) { _s.replace(pos,"@ + a[1] + ".size(),"@ + a[2] + "); pos+="@ + a[2] + ".size(); } return _s; }()"@,
{
    reveal_strlit(" std::string _s=");
    reveal_strlit(" _s.replace(pos,");
    reveal_strlit("; std::size_t pos=0; while((pos=_s.find(");
    reveal_strlit("[&](){{ std::string _s={0}; std::size_t pos=0; while((pos=_s.find({1},pos))!=std::string::npos) {{ _s.replace(pos,{1}.size(),{2}); pos+={2}.size(); }} return _s; }}()");
    reveal_strlit(".size(),");
    reveal_strlit("); pos+=");
    reveal_strlit("[&]()");
    reveal_strlit(" return _s; ");
    reveal_strlit(".size(); ");
    reveal_strlit(",pos))!=std::string::npos) ");
    reveal_strlit("()");
    reveal_strlit("[&](){ std::string _s=");
    reveal_strlit(".size(); } return _s; }()");
    reveal_strlit(",pos))!=std::string::npos) { _s.replace(pos,");
    assert("[&](){{ std::string _s={0}; std::size_t pos=0; while((pos=_s.find({1},pos))!=std::string::npos) {{ _s.replace(pos,{1}.size(),{2}); pos+={2}.size(); }} return _s; }}()"@ =~= "[&]()"@ + (seq!['{', '{'] + (" std::string _s="@ + (seq!['{', '0', '}'] + ("; std::size_t pos=0; while((pos=_s.find("@ + (seq!['{', '1', '}'] + (",pos))!=std::string::npos) "@ + (seq!['{', '{'] + (" _s.replace(pos,"@ + (seq!['{', '1', '}'] + (".size(),"@ + (seq!['{', '2', '}'] + ("); pos+="@ + (seq!['{', '2', '}'] + (".size(); "@ + (seq!['}', '}'] + (" return _s; "@ + (seq!['}', '}'] + ("()"@)))))))))))))))))));
    crate::text::lemma_render_plain("()"@, a);
    crate::text::lemma_render_escape('}', "()"@, a);
    crate::text::lemma_render_plain_prefix(" return _s; "@, seq!['}', '}'] + ("()"@), a);
    crate::text::lemma_render_escape('}', " return _s; "@ + (seq!['}', '}'] + ("()"@)), a);
    crate::text::lemma_render_plain_prefix(".size(); "@, seq!['}', '}'] + (" return _s; "@ + (seq!['}', '}'] + ("()"@))), a);
    crate::text::lemma_render_digit('2', ".size(); "@ + (seq!['}', '}'] + (" return _s; "@ + (seq!['}', '}'] + ("()"@)))), a);
    crate::text::lemma_render_plain_prefix("); pos+="@, seq!['{', '2', '}'] + (".size(); "@ + (seq!['}', '}'] + (" return _s; "@ + (seq!['}', '}'] + ("()"@))))), a);
    crate::text::lemma_render_digit('2', "); pos+="@ + (seq!['{', '2', '}'] + (".size(); "@ + (seq!['}', '}'] + (" return _s; "@ + (seq!['}', '}'] + ("()"@)))))), a);
    crate::text::lemma_render_plain_prefix(".size(),"@, seq!['{', '2', '}'] + ("); pos+="@ + (seq!['{', '2', '}'] + (".size(); "@ + (seq!['}', '}'] + (" return _s; "@ + (seq!['}', '}'] + ("()"@))))))), a);
    crate::text::lemma_render_digit('1', ".size(),"@ + (seq!['{', '2', '}'] + ("); pos+="@ + (seq!['{', '2', '}'] + (".size(); "@ + (seq!['}', '}'] + (" return _s; "@ + (seq!['}', '}'] + ("()"@)))))))), a);
    crate::text::lemma_render_plain_prefix(" _s.replace(pos,"@, seq!['{', '1', '}'] + (".size(),"@ + (seq!['{', '2', '}'] + ("); pos+="@ + (seq!['{', '2', '}'] + (".size(); "@ + (seq!['}', '}'] + (" return _s; "@ + (seq!['}', '}'] + ("()"@))))))))), a);
    crate::text::lemma_render_escape('{', " _s.replace(pos,"@ + (seq!['{', '1', '}'] + (".size(),"@ + (seq!['{', '2', '}'] + ("); pos+="@ + (seq!['{', '2', '}'] + (".size(); "@ + (seq!['}', '}'] + (" return _s; "@ + (seq!['}', '}'] + ("()"@)))))))))), a);
    crate::text::lemma_render_plain_prefix(",pos))!=std::string::npos) "@, seq!['{', '{'] + (" _s.replace(pos,"@ + (seq!['{', '1', '}'] + (".size(),"@ + (seq!['{', '2', '}'] + ("); pos+="@ + (seq!['{', '2', '}'] + (".size(); "@ + (seq!['}', '}'] + (" return _s; "@ + (seq!['}', '}'] + ("()"@))))))))))), a);
    crate::text::lemma_render_digit('1', ",pos))!=std::string::npos) "@ + (seq!['{', '{'] + (" _s.replace(pos,"@ + (seq!['{', '1', '}'] + (".size(),"@ + (seq!['{', '2', '}'] + ("); pos+="@ + (seq!['{', '2', '}'] + (".size(); "@ + (seq!['}', '}'] + (" return _s; "@ + (seq!['}', '}'] + ("()"@)))))))))))), a);
    crate::text::lemma_render_plain_prefix("; std::size_t pos=0; while((pos=_s.find("@, seq!['{', '1', '}'] + (",pos))!=std::string::npos) "@ + (seq!['{', '{'] + (" _s.replace(pos,"@ + (seq!['{', '1', '}'] + (".size(),"@ + (seq!['{', '2', '}'] + ("); pos+="@ + (seq!['{', '2', '}'] + (".size(); "@ + (seq!['}', '}'] + (" return _s; "@ + (seq!['}', '}'] + ("()"@))))))))))))), a);
    crate::text::lemma_render_digit('0', "; std::size_t pos=0; while((pos=_s.find("@ + (seq!['{', '1', '}'] + (",pos))!=std::string::npos) "@ + (seq!['{', '{'] + (" _s.replace(pos,"@ + (seq!['{', '1', '}'] + (".size(),"@ + (seq!['{', '2', '}'] + ("); pos+="@ + (seq!['{', '2', '}'] + (".size(); "@ + (seq!['}', '}'] + (" return _s; "@ + (seq!['}', '}'] + ("()"@)))))))))))))), a);
    crate::text::lemma_render_plain_prefix(" std::string _s="@, seq!['{', '0', '}'] + ("; std::size_t pos=0; while((pos=_s.find("@ + (seq!['{', '1', '}'] + (",pos))!=std::string::npos) "@ + (seq!['{', '{'] + (" _s.replace(pos,"@ + (seq!['{', '1', '}'] + (".size(),"@ + (seq!['{', '2', '}'] + ("); pos+="@ + (seq!['{', '2', '}'] + (".size(); "@ + (seq!['}', '}'] + (" return _s; "@ + (seq!['}', '}'] + ("()"@))))))))))))))), a);
    crate::text::lemma_render_escape('{', " std::string _s="@ + (seq!['{', '0', '}'] + ("; std::size_t pos=0; while((pos=_s.find("@ + (seq!['{', '1', '}'] + (",pos))!=std::string::npos) "@ + (seq!['{', '{'] + (" _s.replace(pos,"@ + (seq!['{', '1', '}'] + (".size(),"@ + (seq!['{', '2', '}'] + ("); pos+="@ + (seq!['{', '2', '}'] + (".size(); "@ + (seq!['}', '}'] + (" return _s; "@ + (seq!['}', '}'] + ("()"@)))))))))))))))), a);
    crate::text::lemma_render_plain_prefix("[&]()"@, seq!['{', '{'] + (" std::string _s="@ + (seq!['{', '0', '}'] + ("; std::size_t pos=0; while((pos=_s.find("@ + (seq!['{', '1', '}'] + (",pos))!=std::string::npos) "@ + (seq!['{', '{'] + (" _s.replace(pos,"@ + (seq!['{', '1', '}'] + (".size(),"@ + (seq!['{', '2', '}'] + ("); pos+="@ + (seq!['{', '2', '}'] + (".size(); "@ + (seq!['}', '}'] + (" return _s; "@ + (seq!['}', '}'] + ("()"@))))))))))))))))), a);
    assert("[&]()"@ + (seq!['{'] + (" std::string _s="@ + (a[0] + ("; std::size_t pos=0; while((pos=_s.find("@ + (a[1] + (",pos))!=std::string::npos) "@ + (seq!['{'] + (" _s.replace(pos,"@ + (a[1] + (".size(),"@ + (a[2] + ("); pos+="@ + (a[2] + (".size(); "@ + (seq!['}'] + (" return _s; "@ + (seq!['}'] + ("()"@)))))))))))))))))) =~= "[&](){ std::string _s="@ + a[0] + "; std::size_t pos=0; while((pos=_s.find("@ + a[1] + ",pos))!=std::string::npos) { _s.replace(pos,"@ + a[1] + ".size(),"@ + a[2] + "); pos+="@ + a[2] + ".size(); } return _s; }()"@);
}

proof fn lemma_cpp_to_string(a: Seq<Seq<char>>)
    requires
        a.len() == 1,
    ensures
        crate::text::render("std::to_string({0})"@, a) == "std::to_string("@ + a[0] + ")"@,
{
    reveal_strlit(")");
    reveal_strlit("std::to_string(");
    reveal_strlit("std::to_string({0})");
    assert("std::to_string({0})"@ =~= "std::to_string("@ + (seq!['{', '0', '}'] + (")"@)));
    crate::text::lemma_render_plain(")"@, a);
    crate::text::lemma_render_digit('0', ")"@, a);
    crate::text::lemma_render_plain_prefix("std::to_string("@, seq!['{', '0', '}'] + (")"@), a);
    assert("std::to_string("@ + (a[0] + (")"@)) =~= "std::to_string("@ + a[0] + ")"@);
}

proof fn lemma_cpp_parse_i64(a: Seq<Seq<char>>)
    requires
        a.len() == 1,
    ensures
        crate::text::render("std::stoll({0})"@, a) == "std::stoll("@ + a[0] + ")"@,
{
    reveal_strlit(")");
    reveal_strlit("std::stoll({0})");
    reveal_strlit("std::stoll(");
    assert("std::stoll({0})"@ =~= "std::stoll("@ + (seq!['{', '0', '}'] + (")"@)));
    crate::text::lemma_render_plain(")"@, a);
    crate::text::lemma_render_digit('0', ")"@, a);
    crate::text::lemma_render_plain_prefix("std::stoll("@, seq!['{', '0', '}'] + (")"@), a);
    assert("std::stoll("@ + (a[0] + (")"@)) =~= "std::stoll("@ + a[0] + ")"@);
}

/// What each builtin does in C++: the same operations as in Rust, written
/// with C++'s own means, on the function's parameters in order.
pub proof fn law_cpp_builtins(ps: Seq<ParamM>)
    ensures
        ps.len() == 1 ==> (builtin_code("abs"@, ps, BackendM::Cpp) == Ok::<Seq<char>, Seq<char>>("std::abs("@ + ps[0].name + ")"@)
            && builtin_code("sqrt"@, ps, BackendM::Cpp) == Ok::<Seq<char>, Seq<char>>("std::sqrt("@ + ps[0].name + ")"@)
            && builtin_code("to_upper"@, ps, BackendM::Cpp) == Ok::<Seq<char>, Seq<char>>("[&](){ std::string _s("@ + ps[0].name + "); std::transform(_s.begin(),_s.end(),_s.begin(),::toupper); return _s; }()"@)
            && builtin_code("to_lower"@, ps, BackendM::Cpp) == Ok::<Seq<char>, Seq<char>>("[&](){ std::string _s("@ + ps[0].name + "); std::transform(_s.begin(),_s.end(),_s.begin(),::tolower); return _s; }()"@)
            && builtin_code("trim"@, ps, BackendM::Cpp) == Ok::<Seq<char>, Seq<char>>("[&](){ std::string _s("@ + ps[0].name + "); _s.erase(0,_s.find_first_not_of(\" \\t\\n\\r\")); _s.erase(_s.find_last_not_of(\" \\t\\n\\r\")+1); return _s; }()"@)
            && builtin_code("to_string"@, ps, BackendM::Cpp) == Ok::<Seq<char>, Seq<char>>("std::to_string("@ + ps[0].name + ")"@)
            && builtin_code("parse_i64"@, ps, BackendM::Cpp) == Ok::<Seq<char>, Seq<char>>("std::stoll("@ + ps[0].name + ")"@)),
        ps.len() == 2 ==> (builtin_code("pow"@, ps, BackendM::Cpp) == Ok::<Seq<char>, Seq<char>>("(decltype("@ + ps[0].name + "))std::pow((double)"@ + ps[0].name + ", (double)"@ + ps[1].name + ")"@)
            && builtin_code("powf"@, ps, BackendM::Cpp) == Ok::<Seq<char>, Seq<char>>("std::pow("@ + ps[0].name + ", "@ + ps[1].name + ")"@)
            && builtin_code("starts_with"@, ps, BackendM::Cpp) == Ok::<Seq<char>, Seq<char>>(ps[0].name + ".rfind("@ + ps[1].name + ", 0) == 0"@)
            && builtin_code("ends_with"@, ps, BackendM::Cpp) == Ok::<Seq<char>, Seq<char>>("("@ + ps[0].name + ".size() >= "@ + ps[1].name + ".size() && "@ + ps[0].name + ".compare("@ + ps[0].name + ".size()-"@ + ps[1].name + ".size(), "@ + ps[1].name + ".size(), "@ + ps[1].name + ") == 0)"@)),
        ps.len() == 3 ==> (builtin_code("clamp"@, ps, BackendM::Cpp) == Ok::<Seq<char>, Seq<char>>("std::clamp("@ + ps[0].name + ", "@ + ps[1].name + ", "@ + ps[2].name + ")"@)
            && builtin_code("replace_str"@, ps, BackendM::Cpp) == Ok::<Seq<char>, Seq<char>>("[&](){ std::string _s="@ + ps[0].name + "; std::size_t pos=0; while((pos=_s.find("@ + ps[1].name + ",pos))!=std::string::npos) { _s.replace(pos,"@ + ps[1].name + ".size(),"@ + ps[2].name + "); pos+="@ + ps[2].name + ".size(); } return _s; }()"@)),
{
    lemma_rust_templates();
    lemma_cpp_templates();
    let a = param_names(ps);
    assert(a.len() == ps.len());
    assert(forall|i: int| 0 <= i < ps.len() ==> #[trigger] a[i] == ps[i].name);
    if ps.len() == 1 { lemma_cpp_abs(a); }
    if ps.len() == 2 { lemma_cpp_pow(a); }
    if ps.len() == 2 { lemma_cpp_powf(a); }
    if ps.len() == 1 { lemma_cpp_sqrt(a); }
    if ps.len() == 3 { lemma_cpp_clamp(a); }
    if ps.len() == 1 { lemma_cpp_to_upper(a); }
    if ps.len() == 1 { lemma_cpp_to_lower(a); }
    if ps.len() == 1 { lemma_cpp_trim(a); }
    if ps.len() == 2 { lemma_cpp_starts_with(a); }
    if ps.len() == 2 { lemma_cpp_ends_with(a); }
    if ps.len() == 3 { lemma_cpp_replace_str(a); }
    if ps.len() == 1 { lemma_cpp_to_string(a); }
    if ps.len() == 1 { lemma_cpp_parse_i64(a); }
}

proof fn lemma_go_templates()
    ensures
        go_tpl("abs"@) == "func() int64 {{ if {0} < 0 {{ return int64(-{0}) }}; return int64({0}) }}()"@,
        go_tpl("pow"@) == "func() int64 {{ return int64(math.Round(math.Pow(float64({0}), float64({1})))) }}()"@,
        go_tpl("powf"@) == "math.Pow({0}, {1})"@,
        go_tpl("sqrt"@) == "math.Sqrt(float64({0}))"@,
        go_tpl("clamp"@) == "func() int64 {{ x,lo,hi:=int64({0}),int64({1}),int64({2}); if x<lo{{return lo}}; if x>hi{{return hi}}; return x }}()"@,
        go_tpl("to_upper"@) == "strings.ToUpper({0})"@,
        go_tpl("to_lower"@) == "strings.ToLower({0})"@,
        go_tpl("trim"@) == "strings.TrimSpace({0})"@,
        go_tpl("starts_with"@) == "strings.HasPrefix({0}, {1})"@,
        go_tpl("ends_with"@) == "strings.HasSuffix({0}, {1})"@,
        go_tpl("replace_str"@) == "strings.ReplaceAll({0}, {1}, {2})"@,
        go_tpl("to_string"@) == "fmt.Sprintf(\"%v\", {0})"@,
        go_tpl("parse_i64"@) == "func() int64 {{ n, _ := strconv.ParseInt(strings.TrimSpace({0}), 10, 64); return n }}()"@,
{
    lemma_builtin_names_distinct();
}

proof fn lemma_go_abs(a: Seq<Seq<char>>)
    requires
        a.len() == 1,
    ensures
        crate::text::render("func() int64 {{ if {0} < 0 {{ return int64(-{0}) }}; return int64({0}) }}()"@, a) == "func() int64 { if "@ + a[0] + " < 0 { return int64(-"@ + a[0] + ") }; return int64("@ + a[0] + ") }()"@,
{
    reveal_strlit(" return int64(-");
    reveal_strlit("func() int64 {{ if {0} < 0 {{ return int64(-{0}) }}; return int64({0}) }}()");
    reveal_strlit(" < 0 ");
    reveal_strlit("; return int64(");
    reveal_strlit(" if ");
    reveal_strlit(") ");
    reveal_strlit("func() int64 ");
    reveal_strlit("()");
    reveal_strlit(") }; return int64(");
    reveal_strlit("func() int64 { if ");
    reveal_strlit(" < 0 { return int64(-");
    reveal_strlit(") }()");
    assert("func() int64 {{ if {0} < 0 {{ return int64(-{0}) }}; return int64({0}) }}()"@ =~= "func() int64 "@ + (seq!['{', '{'] + (" if "@ + (seq!['{', '0', '}'] + (" < 0 "@ + (seq!['{', '{'] + (" return int64(-"@ + (seq!['{', '0', '}'] + (") "@ + (seq!['}', '}'] + ("; return int64("@ + (seq!['{', '0', '}'] + (") "@ + (seq!['}', '}'] + ("()"@)))))))))))))));
    crate::text::lemma_render_plain("()"@, a);
    crate::text::lemma_render_escape('}', "()"@, a);
    crate::text::lemma_render_plain_prefix(") "@, seq!['}', '}'] + ("()"@), a);
    crate::text::lemma_render_digit('0', ") "@ + (seq!['}', '}'] + ("()"@)), a);
    crate::text::lemma_render_plain_prefix("; return int64("@, seq!['{', '0', '}'] + (") "@ + (seq!['}', '}'] + ("()"@))), a);
    crate::text::lemma_render_escape('}', "; return int64("@ + (seq!['{', '0', '}'] + (") "@ + (seq!['}', '}'] + ("()"@)))), a);
    crate::text::lemma_render_plain_prefix(") "@, seq!['}', '}'] + ("; return int64("@ + (seq!['{', '0', '}'] + (") "@ + (seq!['}', '}'] + ("()"@))))), a);
    crate::text::lemma_render_digit('0', ") "@ + (seq!['}', '}'] + ("; return int64("@ + (seq!['{', '0', '}'] + (") "@ + (seq!['}', '}'] + ("()"@)))))), a);
    crate::text::lemma_render_plain_prefix(" return int64(-"@, seq!['{', '0', '}'] + (") "@ + (seq!['}', '}'] + ("; return int64("@ + (seq!['{', '0', '}'] + (") "@ + (seq!['}', '}'] + ("()"@))))))), a);
    crate::text::lemma_render_escape('{', " return int64(-"@ + (seq!['{', '0', '}'] + (") "@ + (seq!['}', '}'] + ("; return int64("@ + (seq!['{', '0', '}'] + (") "@ + (seq!['}', '}'] + ("()"@)))))))), a);
    crate::text::lemma_render_plain_prefix(" < 0 "@, seq!['{', '{'] + (" return int64(-"@ + (seq!['{', '0', '}'] + (") "@ + (seq!['}', '}'] + ("; return int64("@ + (seq!['{', '0', '}'] + (") "@ + (seq!['}', '}'] + ("()"@))))))))), a);
    crate::text::lemma_render_digit('0', " < 0 "@ + (seq!['{', '{'] + (" return int64(-"@ + (seq!['{', '0', '}'] + (") "@ + (seq!['}', '}'] + ("; return int64("@ + (seq!['{', '0', '}'] + (") "@ + (seq!['}', '}'] + ("()"@)))))))))), a);
    crate::text::lemma_render_plain_prefix(" if "@, seq!['{', '0', '}'] + (" < 0 "@ + (seq!['{', '{'] + (" return int64(-"@ + (seq!['{', '0', '}'] + (") "@ + (seq!['}', '}'] + ("; return int64("@ + (seq!['{', '0', '}'] + (") "@ + (seq!['}', '}'] + ("()"@))))))))))), a);
    crate::text::lemma_render_escape('{', " if "@ + (seq!['{', '0', '}'] + (" < 0 "@ + (seq!['{', '{'] + (" return int64(-"@ + (seq!['{', '0', '}'] + (") "@ + (seq!['}', '}'] + ("; return int64("@ + (seq!['{', '0', '}'] + (") "@ + (seq!['}', '}'] + ("()"@)))))))))))), a);
    crate::text::lemma_render_plain_prefix("func() int64 "@, seq!['{', '{'] + (" if "@ + (seq!['{', '0', '}'] + (" < 0 "@ + (seq!['{', '{'] + (" return int64(-"@ + (seq!['{', '0', '}'] + (") "@ + (seq!['}', '}'] + ("; return int64("@ + (seq!['{', '0', '}'] + (") "@ + (seq!['}', '}'] + ("()"@))))))))))))), a);
    assert("func() int64 "@ + (seq!['{'] + (" if "@ + (a[0] + (" < 0 "@ + (seq!['{'] + (" return int64(-"@ + (a[0] + (") "@ + (seq!['}'] + ("; return int64("@ + (a[0] + (") "@ + (seq!['}'] + ("()"@)))))))))))))) =~= "func() int64 { if "@ + a[0] + " < 0 { return int64(-"@ + a[0] + ") }; return int64("@ + a[0] + ") }()"@);
}

proof fn lemma_go_pow(a: Seq<Seq<char>>)
    requires
        a.len() == 2,
    ensures
        crate::text::render("func() int64 {{ return int64(math.Round(math.Pow(float64({0}), float64({1})))) }}()"@, a) == "func() int64 { return int64(math.Round(math.Pow(float64("@ + a[0] + "), float64("@ + a[1] + ")))) }()"@,
{
    reveal_strlit(")))) ");
    reveal_strlit(" return int64(math.Round(math.Pow(float64(");
    reveal_strlit("func() int64 {{ return int64(math.Round(math.Pow(float64({0}), float64({1})))) }}()");
    reveal_strlit("func() int64 ");
    reveal_strlit("), float64(");
    reveal_strlit("()");
    reveal_strlit(")))) }()");
    reveal_strlit("func() int64 { return int64(math.Round(math.Pow(float64(");
    assert("func() int64 {{ return int64(math.Round(math.Pow(float64({0}), float64({1})))) }}()"@ =~= "func() int64 "@ + (seq!['{', '{'] + (" return int64(math.Round(math.Pow(float64("@ + (seq!['{', '0', '}'] + ("), float64("@ + (seq!['{', '1', '}'] + (")))) "@ + (seq!['}', '}'] + ("()"@)))))))));
    crate::text::lemma_render_plain("()"@, a);
    crate::text::lemma_render_escape('}', "()"@, a);
    crate::text::lemma_render_plain_prefix(")))) "@, seq!['}', '}'] + ("()"@), a);
    crate::text::lemma_render_digit('1', ")))) "@ + (seq!['}', '}'] + ("()"@)), a);
    crate::text::lemma_render_plain_prefix("), float64("@, seq!['{', '1', '}'] + (")))) "@ + (seq!['}', '}'] + ("()"@))), a);
    crate::text::lemma_render_digit('0', "), float64("@ + (seq!['{', '1', '}'] + (")))) "@ + (seq!['}', '}'] + ("()"@)))), a);
    crate::text::lemma_render_plain_prefix(" return int64(math.Round(math.Pow(float64("@, seq!['{', '0', '}'] + ("), float64("@ + (seq!['{', '1', '}'] + (")))) "@ + (seq!['}', '}'] + ("()"@))))), a);
    crate::text::lemma_render_escape('{', " return int64(math.Round(math.Pow(float64("@ + (seq!['{', '0', '}'] + ("), float64("@ + (seq!['{', '1', '}'] + (")))) "@ + (seq!['}', '}'] + ("()"@)))))), a);
    crate::text::lemma_render_plain_prefix("func() int64 "@, seq!['{', '{'] + (" return int64(math.Round(math.Pow(float64("@ + (seq!['{', '0', '}'] + ("), float64("@ + (seq!['{', '1', '}'] + (")))) "@ + (seq!['}', '}'] + ("()"@))))))), a);
    assert("func() int64 "@ + (seq!['{'] + (" return int64(math.Round(math.Pow(float64("@ + (a[0] + ("), float64("@ + (a[1] + (")))) "@ + (seq!['}'] + ("()"@)))))))) =~= "func() int64 { return int64(math.Round(math.Pow(float64("@ + a[0] + "), float64("@ + a[1] + ")))) }()"@);
}

proof fn lemma_go_powf(a: Seq<Seq<char>>)
    requires
        a.len() == 2,
    ensures
        crate::text::render("math.Pow({0}, {1})"@, a) == "math.Pow("@ + a[0] + ", "@ + a[1] + ")"@,
{
    reveal_strlit("math.Pow({0}, {1})");
    reveal_strlit(")");
    reveal_strlit("math.Pow(");
    reveal_strlit(", ");
    assert("math.Pow({0}, {1})"@ =~= "math.Pow("@ + (seq!['{', '0', '}'] + (", "@ + (seq!['{', '1', '}'] + (")"@)))));
    crate::text::lemma_render_plain(")"@, a);
    crate::text::lemma_render_digit('1', ")"@, a);
    crate::text::lemma_render_plain_prefix(", "@, seq!['{', '1', '}'] + (")"@), a);
    crate::text::lemma_render_digit('0', ", "@ + (seq!['{', '1', '}'] + (")"@)), a);
    crate::text::lemma_render_plain_prefix("math.Pow("@, seq!['{', '0', '}'] + (", "@ + (seq!['{', '1', '}'] + (")"@))), a);
    assert("math.Pow("@ + (a[0] + (", "@ + (a[1] + (")"@)))) =~= "math.Pow("@ + a[0] + ", "@ + a[1] + ")"@);
}

proof fn lemma_go_sqrt(a: Seq<Seq<char>>)
    requires
        a.len() == 1,
    ensures
        crate::text::render("math.Sqrt(float64({0}))"@, a) == "math.Sqrt(float64("@ + a[0] + "))"@,
{
    reveal_strlit("math.Sqrt(float64(");
    reveal_strlit("math.Sqrt(float64({0}))");
    reveal_strlit("))");
    assert("math.Sqrt(float64({0}))"@ =~= "math.Sqrt(float64("@ + (seq!['{', '0', '}'] + ("))"@)));
    crate::text::lemma_render_plain("))"@, a);
    crate::text::lemma_render_digit('0', "))"@, a);
    crate::text::lemma_render_plain_prefix("math.Sqrt(float64("@, seq!['{', '0', '}'] + ("))"@), a);
    assert("math.Sqrt(float64("@ + (a[0] + ("))"@)) =~= "math.Sqrt(float64("@ + a[0] + "))"@);
}

proof fn lemma_go_clamp(a: Seq<Seq<char>>)
    requires
        a.len() == 3,
    ensures
        crate::text::render("func() int64 {{ x,lo,hi:=int64({0}),int64({1}),int64({2}); if x<lo{{return lo}}; if x>hi{{return hi}}; return x }}()"@, a) == "func() int64 { x,lo,hi:=int64("@ + a[0] + "),int64("@ + a[1] + "),int64("@ + a[2] + "); if x<lo{return lo}; if x>hi{return hi}; return x }()"@,
{
    reveal_strlit(" x,lo,hi:=int64(");
    reveal_strlit("); if x<lo");
    reveal_strlit("; return x ");
    reveal_strlit("),int64(");
    reveal_strlit("return hi");
    reveal_strlit("func() int64 {{ x,lo,hi:=int64({0}),int64({1}),int64({2}); if x<lo{{return lo}}; if x>hi{{return hi}}; return x }}()");
    reveal_strlit("return lo");
    reveal_strlit("; if x>hi");
    reveal_strlit("func() int64 ");
    reveal_strlit("()");
    reveal_strlit("); if x<lo{return lo}; if x>hi{return hi}; return x }()");
    reveal_strlit("func() int64 { x,lo,hi:=int64(");
    assert("func() int64 {{ x,lo,hi:=int64({0}),int64({1}),int64({2}); if x<lo{{return lo}}; if x>hi{{return hi}}; return x }}()"@ =~= "func() int64 "@ + (seq!['{', '{'] + (" x,lo,hi:=int64("@ + (seq!['{', '0', '}'] + ("),int64("@ + (seq!['{', '1', '}'] + ("),int64("@ + (seq!['{', '2', '}'] + ("); if x<lo"@ + (seq!['{', '{'] + ("return lo"@ + (seq!['}', '}'] + ("; if x>hi"@ + (seq!['{', '{'] + ("return hi"@ + (seq!['}', '}'] + ("; return x "@ + (seq!['}', '}'] + ("()"@)))))))))))))))))));
    crate::text::lemma_render_plain("()"@, a);
    crate::text::lemma_render_escape('}', "()"@, a);
    crate::text::lemma_render_plain_prefix("; return x "@, seq!['}', '}'] + ("()"@), a);
    crate::text::lemma_render_escape('}', "; return x "@ + (seq!['}', '}'] + ("()"@)), a);
    crate::text::lemma_render_plain_prefix("return hi"@, seq!['}', '}'] + ("; return x "@ + (seq!['}', '}'] + ("()"@))), a);
    crate::text::lemma_render_escape('{', "return hi"@ + (seq!['}', '}'] + ("; return x "@ + (seq!['}', '}'] + ("()"@)))), a);
    crate::text::lemma_render_plain_prefix("; if x>hi"@, seq!['{', '{'] + ("return hi"@ + (seq!['}', '}'] + ("; return x "@ + (seq!['}', '}'] + ("()"@))))), a);
    crate::text::lemma_render_escape('}', "; if x>hi"@ + (seq!['{', '{'] + ("return hi"@ + (seq!['}', '}'] + ("; return x "@ + (seq!['}', '}'] + ("()"@)))))), a);
    crate::text::lemma_render_plain_prefix("return lo"@, seq!['}', '}'] + ("; if x>hi"@ + (seq!['{', '{'] + ("return hi"@ + (seq!['}', '}'] + ("; return x "@ + (seq!['}', '}'] + ("()"@))))))), a);
    crate::text::lemma_render_escape('{', "return lo"@ + (seq!['}', '}'] + ("; if x>hi"@ + (seq!['{', '{'] + ("return hi"@ + (seq!['}', '}'] + ("; return x "@ + (seq!['}', '}'] + ("()"@)))))))), a);
    crate::text::lemma_render_plain_prefix("); if x<lo"@, seq!['{', '{'] + ("return lo"@ + (seq!['}', '}'] + ("; if x>hi"@ + (seq!['{', '{'] + ("return hi"@ + (seq!['}', '}'] + ("; return x "@ + (seq!['}', '}'] + ("()"@))))))))), a);
    crate::text::lemma_render_digit('2', "); if x<lo"@ + (seq!['{', '{'] + ("return lo"@ + (seq!['}', '}'] + ("; if x>hi"@ + (seq!['{', '{'] + ("return hi"@ + (seq!['}', '}'] + ("; return x "@ + (seq!['}', '}'] + ("()"@)))))))))), a);
    crate::text::lemma_render_plain_prefix("),int64("@, seq!['{', '2', '}'] + ("); if x<lo"@ + (seq!['{', '{'] + ("return lo"@ + (seq!['}', '}'] + ("; if x>hi"@ + (seq!['{', '{'] + ("return hi"@ + (seq!['}', '}'] + ("; return x "@ + (seq!['}', '}'] + ("()"@))))))))))), a);
    crate::text::lemma_render_digit('1', "),int64("@ + (seq!['{', '2', '}'] + ("); if x<lo"@ + (seq!['{', '{'] + ("return lo"@ + (seq!['}', '}'] + ("; if x>hi"@ + (seq!['{', '{'] + ("return hi"@ + (seq!['}', '}'] + ("; return x "@ + (seq!['}', '}'] + ("()"@)))))))))))), a);
    crate::text::lemma_render_plain_prefix("),int64("@, seq!['{', '1', '}'] + ("),int64("@ + (seq!['{', '2', '}'] + ("); if x<lo"@ + (seq!['{', '{'] + ("return lo"@ + (seq!['}', '}'] + ("; if x>hi"@ + (seq!['{', '{'] + ("return hi"@ + (seq!['}', '}'] + ("; return x "@ + (seq!['}', '}'] + ("()"@))))))))))))), a);
    crate::text::lemma_render_digit('0', "),int64("@ + (seq!['{', '1', '}'] + ("),int64("@ + (seq!['{', '2', '}'] + ("); if x<lo"@ + (seq!['{', '{'] + ("return lo"@ + (seq!['}', '}'] + ("; if x>hi"@ + (seq!['{', '{'] + ("return hi"@ + (seq!['}', '}'] + ("; return x "@ + (seq!['}', '}'] + ("()"@)))))))))))))), a);
    crate::text::lemma_render_plain_prefix(" x,lo,hi:=int64("@, seq!['{', '0', '}'] + ("),int64("@ + (seq!['{', '1', '}'] + ("),int64("@ + (seq!['{', '2', '}'] + ("); if x<lo"@ + (seq!['{', '{'] + ("return lo"@ + (seq!['}', '}'] + ("; if x>hi"@ + (seq!['{', '{'] + ("return hi"@ + (seq!['}', '}'] + ("; return x "@ + (seq!['}', '}'] + ("()"@))))))))))))))), a);
    crate::text::lemma_render_escape('{', " x,lo,hi:=int64("@ + (seq!['{', '0', '}'] + ("),int64("@ + (seq!['{', '1', '}'] + ("),int64("@ + (seq!['{', '2', '}'] + ("); if x<lo"@ + (seq!['{', '{'] + ("return lo"@ + (seq!['}', '}'] + ("; if x>hi"@ + (seq!['{', '{'] + ("return hi"@ + (seq!['}', '}'] + ("; return x "@ + (seq!['}', '}'] + ("()"@)))))))))))))))), a);
    crate::text::lemma_render_plain_prefix("func() int64 "@, seq!['{', '{'] + (" x,lo,hi:=int64("@ + (seq!['{', '0', '}'] + ("),int64("@ + (seq!['{', '1', '}'] + ("),int64("@ + (seq!['{', '2', '}'] + ("); if x<lo"@ + (seq!['{', '{'] + ("return lo"@ + (seq!['}', '}'] + ("; if x>hi"@ + (seq!['{', '{'] + ("return hi"@ + (seq!['}', '}'] + ("; return x "@ + (seq!['}', '}'] + ("()"@))))))))))))))))), a);
    assert("func() int64 "@ + (seq!['{'] + (" x,lo,hi:=int64("@ + (a[0] + ("),int64("@ + (a[1] + ("),int64("@ + (a[2] + ("); if x<lo"@ + (seq!['{'] + ("return lo"@ + (seq!['}'] + ("; if x>hi"@ + (seq!['{'] + ("return hi"@ + (seq!['}'] + ("; return x "@ + (seq!['}'] + ("()"@)))))))))))))))))) =~= "func() int64 { x,lo,hi:=int64("@ + a[0] + "),int64("@ + a[1] + "),int64("@ + a[2] + "); if x<lo{return lo}; if x>hi{return hi}; return x }()"@);
}

proof fn lemma_go_to_upper(a: Seq<Seq<char>>)
    requires
        a.len() == 1,
    ensures
        crate::text::render("strings.ToUpper({0})"@, a) == "strings.ToUpper("@ + a[0] + ")"@,
{
    reveal_strlit(")");
    reveal_strlit("strings.ToUpper(");
    reveal_strlit("strings.ToUpper({0})");
    assert("strings.ToUpper({0})"@ =~= "strings.ToUpper("@ + (seq!['{', '0', '}'] + (")"@)));
    crate::text::lemma_render_plain(")"@, a);
    crate::text::lemma_render_digit('0', ")"@, a);
    crate::text::lemma_render_plain_prefix("strings.ToUpper("@, seq!['{', '0', '}'] + (")"@), a);
    assert("strings.ToUpper("@ + (a[0] + (")"@)) =~= "strings.ToUpper("@ + a[0] + ")"@);
}

proof fn lemma_go_to_lower(a: Seq<Seq<char>>)
    requires
        a.len() == 1,
    ensures
        crate::text::render("strings.ToLower({0})"@, a) == "strings.ToLower("@ + a[0] + ")"@,
{
    reveal_strlit(")");
    reveal_strlit("strings.ToLower(");
    reveal_strlit("strings.ToLower({0})");
    assert("strings.ToLower({0})"@ =~= "strings.ToLower("@ + (seq!['{', '0', '}'] + (")"@)));
    crate::text::lemma_render_plain(")"@, a);
    crate::text::lemma_render_digit('0', ")"@, a);
    crate::text::lemma_render_plain_prefix("strings.ToLower("@, seq!['{', '0', '}'] + (")"@), a);
    assert("strings.ToLower("@ + (a[0] + (")"@)) =~= "strings.ToLower("@ + a[0] + ")"@);
}

proof fn lemma_go_trim(a: Seq<Seq<char>>)
    requires
        a.len() == 1,
    ensures
        crate::text::render("strings.TrimSpace({0})"@, a) == "strings.TrimSpace("@ + a[0] + ")"@,
{
    reveal_strlit("strings.TrimSpace(");
    reveal_strlit(")");
    reveal_strlit("strings.TrimSpace({0})");
    assert("strings.TrimSpace({0})"@ =~= "strings.TrimSpace("@ + (seq!['{', '0', '}'] + (")"@)));
    crate::text::lemma_render_plain(")"@, a);
    crate::text::lemma_render_digit('0', ")"@, a);
    crate::text::lemma_render_plain_prefix("strings.TrimSpace("@, seq!['{', '0', '}'] + (")"@), a);
    assert("strings.TrimSpace("@ + (a[0] + (")"@)) =~= "strings.TrimSpace("@ + a[0] + ")"@);
}

proof fn lemma_go_starts_with(a: Seq<Seq<char>>)
    requires
        a.len() == 2,
    ensures
        crate::text::render("strings.HasPrefix({0}, {1})"@, a) == "strings.HasPrefix("@ + a[0] + ", "@ + a[1] + ")"@,
{
    reveal_strlit("strings.HasPrefix(");
    reveal_strlit("strings.HasPrefix({0}, {1})");
    reveal_strlit(")");
    reveal_strlit(", ");
    assert("strings.HasPrefix({0}, {1})"@ =~= "strings.HasPrefix("@ + (seq!['{', '0', '}'] + (", "@ + (seq!['{', '1', '}'] + (")"@)))));
    crate::text::lemma_render_plain(")"@, a);
    crate::text::lemma_render_digit('1', ")"@, a);
    crate::text::lemma_render_plain_prefix(", "@, seq!['{', '1', '}'] + (")"@), a);
    crate::text::lemma_render_digit('0', ", "@ + (seq!['{', '1', '}'] + (")"@)), a);
    crate::text::lemma_render_plain_prefix("strings.HasPrefix("@, seq!['{', '0', '}'] + (", "@ + (seq!['{', '1', '}'] + (")"@))), a);
    assert("strings.HasPrefix("@ + (a[0] + (", "@ + (a[1] + (")"@)))) =~= "strings.HasPrefix("@ + a[0] + ", "@ + a[1] + ")"@);
}

proof fn lemma_go_ends_with(a: Seq<Seq<char>>)
    requires
        a.len() == 2,
    ensures
        crate::text::render("strings.HasSuffix({0}, {1})"@, a) == "strings.HasSuffix("@ + a[0] + ", "@ + a[1] + ")"@,
{
    reveal_strlit("strings.HasSuffix({0}, {1})");
    reveal_strlit(")");
    reveal_strlit("strings.HasSuffix(");
    reveal_strlit(", ");
    assert("strings.HasSuffix({0}, {1})"@ =~= "strings.HasSuffix("@ + (seq!['{', '0', '}'] + (", "@ + (seq!['{', '1', '}'] + (")"@)))));
    crate::text::lemma_render_plain(")"@, a);
    crate::text::lemma_render_digit('1', ")"@, a);
    crate::text::lemma_render_plain_prefix(", "@, seq!['{', '1', '}'] + (")"@), a);
    crate::text::lemma_render_digit('0', ", "@ + (seq!['{', '1', '}'] + (")"@)), a);
    crate::text::lemma_render_plain_prefix("strings.HasSuffix("@, seq!['{', '0', '}'] + (", "@ + (seq!['{', '1', '}'] + (")"@))), a);
    assert("strings.HasSuffix("@ + (a[0] + (", "@ + (a[1] + (")"@)))) =~= "strings.HasSuffix("@ + a[0] + ", "@ + a[1] + ")"@);
}

proof fn lemma_go_replace_str(a: Seq<Seq<char>>)
    requires
        a.len() == 3,
    ensures
        crate::text::render("strings.ReplaceAll({0}, {1}, {2})"@, a) == "strings.ReplaceAll("@ + a[0] + ", "@ + a[1] + ", "@ + a[2] + ")"@,
{
    reveal_strlit(")");
    reveal_strlit("strings.ReplaceAll({0}, {1}, {2})");
    reveal_strlit("strings.ReplaceAll(");
    reveal_strlit(", ");
    assert("strings.ReplaceAll({0}, {1}, {2})"@ =~= "strings.ReplaceAll("@ + (seq!['{', '0', '}'] + (", "@ + (seq!['{', '1', '}'] + (", "@ + (seq!['{', '2', '}'] + (")"@)))))));
    crate::text::lemma_render_plain(")"@, a);
    crate::text::lemma_render_digit('2', ")"@, a);
    crate::text::lemma_render_plain_prefix(", "@, seq!['{', '2', '}'] + (")"@), a);
    crate::text::lemma_render_digit('1', ", "@ + (seq!['{', '2', '}'] + (")"@)), a);
    crate::text::lemma_render_plain_prefix(", "@, seq!['{', '1', '}'] + (", "@ + (seq!['{', '2', '}'] + (")"@))), a);
    crate::text::lemma_render_digit('0', ", "@ + (seq!['{', '1', '}'] + (", "@ + (seq!['{', '2', '}'] + (")"@)))), a);
    crate::text::lemma_render_plain_prefix("strings.ReplaceAll("@, seq!['{', '0', '}'] + (", "@ + (seq!['{', '1', '}'] + (", "@ + (seq!['{', '2', '}'] + (")"@))))), a);
    assert("strings.ReplaceAll("@ + (a[0] + (", "@ + (a[1] + (", "@ + (a[2] + (")"@)))))) =~= "strings.ReplaceAll("@ + a[0] + ", "@ + a[1] + ", "@ + a[2] + ")"@);
}

proof fn lemma_go_to_string(a: Seq<Seq<char>>)
    requires
        a.len() == 1,
    ensures
        crate::text::render("fmt.Sprintf(\"%v\", {0})"@, a) == "fmt.Sprintf(\"%v\", "@ + a[0] + ")"@,
{
    reveal_strlit(")");
    reveal_strlit("fmt.Sprintf(\"%v\", ");
    reveal_strlit("fmt.Sprintf(\"%v\", {0})");
    assert("fmt.Sprintf(\"%v\", {0})"@ =~= "fmt.Sprintf(\"%v\", "@ + (seq!['{', '0', '}'] + (")"@)));
    crate::text::lemma_render_plain(")"@, a);
    crate::text::lemma_render_digit('0', ")"@, a);
    crate::text::lemma_render_plain_prefix("fmt.Sprintf(\"%v\", "@, seq!['{', '0', '}'] + (")"@), a);
    assert("fmt.Sprintf(\"%v\", "@ + (a[0] + (")"@)) =~= "fmt.Sprintf(\"%v\", "@ + a[0] + ")"@);
}

proof fn lemma_go_parse_i64(a: Seq<Seq<char>>)
    requires
        a.len() == 1,
    ensures
        crate::text::render("func() int64 {{ n, _ := strconv.ParseInt(strings.TrimSpace({0}), 10, 64); return n }}()"@, a) == "func() int64 { n, _ := strconv.ParseInt(strings.TrimSpace("@ + a[0] + "), 10, 64); return n }()"@,
{
    reveal_strlit("func() int64 {{ n, _ := strconv.ParseInt(strings.TrimSpace({0}), 10, 64); return n }}()");
    reveal_strlit(" n, _ := strconv.ParseInt(strings.TrimSpace(");
    reveal_strlit("func() int64 ");
    reveal_strlit("), 10, 64); return n ");
    reveal_strlit("()");
    reveal_strlit("func() int64 { n, _ := strconv.ParseInt(strings.TrimSpace(");
    reveal_strlit("), 10, 64); return n }()");
    assert("func() int64 {{ n, _ := strconv.ParseInt(strings.TrimSpace({0}), 10, 64); return n }}()"@ =~= "func() int64 "@ + (seq!['{', '{'] + (" n, _ := strconv.ParseInt(strings.TrimSpace("@ + (seq!['{', '0', '}'] + ("), 10, 64); return n "@ + (seq!['}', '}'] + ("()"@)))))));
    crate::text::lemma_render_plain("()"@, a);
    crate::text::lemma_render_escape('}', "()"@, a);
    crate::text::lemma_render_plain_prefix("), 10, 64); return n "@, seq!['}', '}'] + ("()"@), a);
    crate::text::lemma_render_digit('0', "), 10, 64); return n "@ + (seq!['}', '}'] + ("()"@)), a);
    crate::text::lemma_render_plain_prefix(" n, _ := strconv.ParseInt(strings.TrimSpace("@, seq!['{', '0', '}'] + ("), 10, 64); return n "@ + (seq!['}', '}'] + ("()"@))), a);
    crate::text::lemma_render_escape('{', " n, _ := strconv.ParseInt(strings.TrimSpace("@ + (seq!['{', '0', '}'] + ("), 10, 64); return n "@ + (seq!['}', '}'] + ("()"@)))), a);
    crate::text::lemma_render_plain_prefix("func() int64 "@, seq!['{', '{'] + (" n, _ := strconv.ParseInt(strings.TrimSpace("@ + (seq!['{', '0', '}'] + ("), 10, 64); return n "@ + (seq!['}', '}'] + ("()"@))))), a);
    assert("func() int64 "@ + (seq!['{'] + (" n, _ := strconv.ParseInt(strings.TrimSpace("@ + (a[0] + ("), 10, 64); return n "@ + (seq!['}'] + ("()"@)))))) =~= "func() int64 { n, _ := strconv.ParseInt(strings.TrimSpace("@ + a[0] + "), 10, 64); return n }()"@);
}

/// What each builtin does in Go: the same operations as in Rust, written
/// with Go's own means, on the function's parameters in order.
pub proof fn law_go_builtins(ps: Seq<ParamM>)
    ensures
        ps.len() == 1 ==> (builtin_code("abs"@, ps, BackendM::Go) == Ok::<Seq<char>, Seq<char>>("func() int64 { if "@ + ps[0].name + " < 0 { return int64(-"@ + ps[0].name + ") }; return int64("@ + ps[0].name + ") }()"@)
            && builtin_code("sqrt"@, ps, BackendM::Go) == Ok::<Seq<char>, Seq<char>>("math.Sqrt(float64("@ + ps[0].name + "))"@)
            && builtin_code("to_upper"@, ps, BackendM::Go) == Ok::<Seq<char>, Seq<char>>("strings.ToUpper("@ + ps[0].name + ")"@)
            && builtin_code("to_lower"@, ps, BackendM::Go) == Ok::<Seq<char>, Seq<char>>("strings.ToLower("@ + ps[0].name + ")"@)
            && builtin_code("trim"@, ps, BackendM::Go) == Ok::<Seq<char>, Seq<char>>("strings.TrimSpace("@ + ps[0].name + ")"@)
            && builtin_code("to_string"@, ps, BackendM::Go) == Ok::<Seq<char>, Seq<char>>("fmt.Sprintf(\"%v\", "@ + ps[0].name + ")"@)
            && builtin_code("parse_i64"@, ps, BackendM::Go) == Ok::<Seq<char>, Seq<char>>("func() int64 { n, _ := strconv.ParseInt(strings.TrimSpace("@ + ps[0].name + "), 10, 64); return n }()"@)),
        ps.len() == 2 ==> (builtin_code("pow"@, ps, BackendM::Go) == Ok::<Seq<char>, Seq<char>>("func() int64 { return int64(math.Round(math.Pow(float64("@ + ps[0].name + "), float64("@ + ps[1].name + ")))) }()"@)
            && builtin_code("powf"@, ps, BackendM::Go) == Ok::<Seq<char>, Seq<char>>("math.Pow("@ + ps[0].name + ", "@ + ps[1].name + ")"@)
            && builtin_code("starts_with"@, ps, BackendM::Go) == Ok::<Seq<char>, Seq<char>>("strings.HasPrefix("@ + ps[0].name + ", "@ + ps[1].name + ")"@)
            && builtin_code("ends_with"@, ps, BackendM::Go) == Ok::<Seq<char>, Seq<char>>("strings.HasSuffix("@ + ps[0].name + ", "@ + ps[1].name + ")"@)),
        ps.len() == 3 ==> (builtin_code("clamp"@, ps, BackendM::Go) == Ok::<Seq<char>, Seq<char>>("func() int64 { x,lo,hi:=int64("@ + ps[0].name + "),int64("@ + ps[1].name + "),int64("@ + ps[2].name + "); if x<lo{return lo}; if x>hi{return hi}; return x }()"@)
            && builtin_code("replace_str"@, ps, BackendM::Go) == Ok::<Seq<char>, Seq<char>>("strings.ReplaceAll("@ + ps[0].name + ", "@ + ps[1].name + ", "@ + ps[2].name + ")"@)),
{
    lemma_rust_templates();
    lemma_go_templates();
    let a = param_names(ps);
    assert(a.len() == ps.len());
    assert(forall|i: int| 0 <= i < ps.len() ==> #[trigger] a[i] == ps[i].name);
    if ps.len() == 1 { lemma_go_abs(a); }
    if ps.len() == 2 { lemma_go_pow(a); }
    if ps.len() == 2 { lemma_go_powf(a); }
    if ps.len() == 1 { lemma_go_sqrt(a); }
    if ps.len() == 3 { lemma_go_clamp(a); }
    if ps.len() == 1 { lemma_go_to_upper(a); }
    if ps.len() == 1 { lemma_go_to_lower(a); }
    if ps.len() == 1 { lemma_go_trim(a); }
    if ps.len() == 2 { lemma_go_starts_with(a); }
    if ps.len() == 2 { lemma_go_ends_with(a); }
    if ps.len() == 3 { lemma_go_replace_str(a); }
    if ps.len() == 1 { lemma_go_to_string(a); }
    if ps.len() == 1 { lemma_go_parse_i64(a); }
}

} // verus!
