//! Tests of a project: the functions marked `#test`, found across the tree,
//! and the harness that runs them in each target language.

use vstd::prelude::*;
use crate::ast::{Backend, BuFile, backend_ext, backend_for_ext};
use crate::grammar::{Outcome, source_file};
use crate::model::{BackendM, BulletM, backend_m, bullet_m, source_m, strs_m};
use crate::parser::{ParseError, parse_file};
use crate::project::{
    BuText, BuTextM, Folder, FolderM, Loaded, LoadedM, butext_m, butexts_m, collect_bu_files, file_stem,
    folder_m, folders_m, inventory_of, lemma_folders_m, lemma_trees_fit, read_inventory, refs_m, sources,
    stem_of, text_fits, texts_fit, tree_fits, trees_fit,
};
use crate::text::{dedup, dedup_strs, owned, render, render_template};
use crate::validator::capital;

verus! {

// ── Discovery ────────────────────────────────────────────────────────────────

/// A function marked `#test`, with the module (file stem) that holds it.
#[derive(Debug, Clone)]
pub struct TestFn {
    pub name: String,
    pub module: String,
}

pub open spec fn test_m(t: TestFn) -> (Seq<char>, Seq<char>) {
    (t.name@, t.module@)
}

pub open spec fn tests_m(s: Seq<TestFn>) -> Seq<(Seq<char>, Seq<char>)> {
    s.map_values(|t: TestFn| test_m(t))
}

/// The test functions of a file, in order, with its module name.
pub open spec fn file_tests(bs: Seq<BulletM>, module: Seq<char>) -> Seq<(Seq<char>, Seq<char>)>
    decreases bs.len(),
{
    if bs.len() == 0 {
        Seq::empty()
    } else {
        file_tests(bs.drop_last(), module) + (if bs.last().is_test { seq![(bs.last().name, module)] } else { Seq::empty() })
    }
}

/// The tests of one source file; a file that cannot be read or parsed has
/// none, and an abort stops the search.
#[verifier::opaque]
pub open spec fn source_tests(b: BuTextM) -> Result<Seq<(Seq<char>, Seq<char>)>, Seq<char>> {
    match b.text {
        Ok(t) => match source_file(t) {
            Outcome::Done(bs, _) => Ok(file_tests(bs, stem_of(b.name))),
            Outcome::Fail(_, _) => Ok(Seq::empty()),
            Outcome::Abort(m) => Err(m),
        },
        Err(_) => Ok(Seq::empty()),
    }
}

pub open spec fn then_tests(a: Result<Seq<(Seq<char>, Seq<char>)>, Seq<char>>, b: Result<Seq<(Seq<char>, Seq<char>)>, Seq<char>>) -> Result<Seq<(Seq<char>, Seq<char>)>, Seq<char>> {
    match a {
        Err(m) => Err(m),
        Ok(x) => match b {
            Err(m) => Err(m),
            Ok(y) => Ok(x + y),
        },
    }
}

pub open spec fn sources_tests(bs: Seq<BuTextM>) -> Result<Seq<(Seq<char>, Seq<char>)>, Seq<char>>
    decreases bs.len(),
{
    if bs.len() == 0 {
        Ok(Seq::empty())
    } else {
        then_tests(sources_tests(bs.drop_last()), source_tests(bs.last()))
    }
}

/// The tests of a folder: those of its sub-folders first, then those of its
/// own source files. A folder without a readable inventory has none.
pub open spec fn folder_tests(f: FolderM) -> Result<Seq<(Seq<char>, Seq<char>)>, Seq<char>>
    decreases f, 1nat,
{
    match inventory_of(f) {
        LoadedM::Found(_) => then_tests(forest_tests(f.subdirs), sources_tests(sources(f.files))),
        LoadedM::Failed(_) => Ok(Seq::empty()),
        LoadedM::Aborted(m) => Err(m),
    }
}

pub open spec fn forest_tests(s: Seq<FolderM>) -> Result<Seq<(Seq<char>, Seq<char>)>, Seq<char>>
    decreases s, 0nat,
{
    if s.len() == 0 {
        Ok(Seq::empty())
    } else {
        then_tests(forest_tests(s.drop_last()), folder_tests(s.last()))
    }
}

pub proof fn lemma_sources_tests_stop(s: Seq<BuTextM>, k: int)
    requires
        0 <= k <= s.len(),
        sources_tests(s.take(k)) is Err,
    ensures
        sources_tests(s) == sources_tests(s.take(k)),
    decreases s.len(),
{
    if k < s.len() {
        assert(s.drop_last().take(k) =~= s.take(k));
        lemma_sources_tests_stop(s.drop_last(), k);
    } else {
        assert(s.take(k) =~= s);
    }
}

pub proof fn lemma_forest_tests_stop(s: Seq<FolderM>, k: int)
    requires
        0 <= k <= s.len(),
        forest_tests(s.take(k)) is Err,
    ensures
        forest_tests(s) == forest_tests(s.take(k)),
    decreases s.len(),
{
    if k < s.len() {
        assert(s.drop_last().take(k) =~= s.take(k));
        lemma_forest_tests_stop(s.drop_last(), k);
    } else {
        assert(s.take(k) =~= s);
    }
}

/// Appends the tests of one source file.
fn collect_file_tests(b: &BuText, out: &mut Vec<TestFn>) -> (stop: Option<String>)
    requires
        text_fits(butext_m(*b).text),
    ensures
        match source_tests(butext_m(*b)) {
            Ok(x) => stop is None && tests_m(final(out)@) == tests_m(old(out)@) + x,
            Err(m) => stop matches Some(t) && t@ == m,
        },
{
    reveal(source_tests);
    let ghost start = tests_m(out@);
    assert(tests_m(out@) =~= start + Seq::<(Seq<char>, Seq<char>)>::empty());
    let t = match &b.text {
        Ok(t) => t,
        Err(_) => return None,
    };
    let sf = match parse_file(t.as_str(), false) {
        Ok(BuFile::Source(sf)) => sf,
        Ok(BuFile::Inventory(_)) => return None,
        Err(ParseError::Syntax(_)) => return None,
        Err(ParseError::Aborted(m)) => return Some(m),
    };
    let module = file_stem(b.name.as_str());
    let ghost bs = source_m(sf);
    let mut i: usize = 0;
    assert(bs.take(0) =~= Seq::<BulletM>::empty());
    while i < sf.bullets.len()
        invariant
            i <= sf.bullets.len(),
            bs == source_m(sf),
            module@ == stem_of(b.name@),
            tests_m(out@) == start + file_tests(bs.take(i as int), module@),
        decreases sf.bullets.len() - i,
    {
        assert(bs.take(i + 1).drop_last() =~= bs.take(i as int));
        assert(bs.take(i + 1).last() == bullet_m(sf.bullets@[i as int]));
        let ghost before = tests_m(out@);
        if sf.bullets[i].is_test {
            out.push(TestFn { name: owned(sf.bullets[i].name.as_str()), module: owned(module.as_str()) });
            assert(tests_m(out@) =~= before.push((sf.bullets@[i as int].name@, module@)));
        }
        assert(tests_m(out@) =~= start + file_tests(bs.take(i + 1), module@));
        i = i + 1;
    }
    assert(bs.take(sf.bullets.len() as int) =~= bs);
    None
}

/// Appends the tests of a folder and everything below it.
#[verifier::loop_isolation(false)]
fn collect_tests_in(dir: &Folder, out: &mut Vec<TestFn>) -> (stop: Option<String>)
    requires
        tree_fits(folder_m(*dir)),
    ensures
        match folder_tests(folder_m(*dir)) {
            Ok(x) => stop is None && tests_m(final(out)@) == tests_m(old(out)@) + x,
            Err(m) => stop matches Some(t) && t@ == m,
        },
    decreases dir,
{
    let ghost f = folder_m(*dir);
    let ghost start = tests_m(out@);
    assert(tests_m(out@) =~= start + Seq::<(Seq<char>, Seq<char>)>::empty());
    match read_inventory(dir) {
        Loaded::Found(_) => {},
        Loaded::Failed(_) => return None,
        Loaded::Aborted(m) => return Some(m),
    }
    proof {
        lemma_folders_m(dir.subdirs@);
        lemma_trees_fit(f.subdirs);
    }
    let ghost s = f.subdirs;
    let ghost mut acc: Seq<(Seq<char>, Seq<char>)> = Seq::empty();
    assert(s.take(0) =~= Seq::<FolderM>::empty());
    let mut i: usize = 0;
    while i < dir.subdirs.len()
        invariant
            i <= dir.subdirs.len(),
            forest_tests(s.take(i as int)) == Ok::<Seq<(Seq<char>, Seq<char>)>, Seq<char>>(acc),
            tests_m(out@) == start + acc,
        decreases dir.subdirs.len() - i,
    {
        assert(s.take(i + 1).drop_last() =~= s.take(i as int));
        assert(s.take(i + 1).last() == s[i as int]);
        assert(tree_fits(s[i as int]));
        let ghost res = folder_tests(s[i as int]);
        let ghost before = tests_m(out@);
        match collect_tests_in(&dir.subdirs[i], out) {
            Some(m) => {
                proof { lemma_forest_tests_stop(s, i + 1); }
                return Some(m);
            },
            None => {
                proof {
                    let x = match res { Ok(x) => x, Err(_) => Seq::empty() };
                    acc = acc + x;
                    assert(tests_m(out@) =~= start + acc);
                }
            },
        }
        i = i + 1;
    }
    assert(s.take(dir.subdirs.len() as int) =~= s);
    let ghost mid = tests_m(out@);
    let ghost res2 = sources_tests(sources(f.files));
    match collect_sources_tests(dir, out) {
        Some(m) => return Some(m),
        None => {},
    }
    proof {
        let x = match res2 { Ok(x) => x, Err(_) => Seq::empty() };
        assert(tests_m(out@) =~= start + (acc + x));
    }
    None
}

/// Appends the tests of the source files of a folder.
fn collect_sources_tests(dir: &Folder, out: &mut Vec<TestFn>) -> (stop: Option<String>)
    requires
        texts_fit(butexts_m(dir.files@)),
        crate::project::names_ascending(butexts_m(dir.files@)),
    ensures
        match sources_tests(sources(butexts_m(dir.files@))) {
            Ok(x) => stop is None && tests_m(final(out)@) == tests_m(old(out)@) + x,
            Err(m) => stop matches Some(t) && t@ == m,
        },
{
    let ghost f = butexts_m(dir.files@);
    let ghost mid = tests_m(out@);
    let bus = collect_bu_files(dir);
    let ghost bs = refs_m(bus@);
    proof { crate::validator::lemma_sources_fit(f); }
    let ghost mut acc2: Seq<(Seq<char>, Seq<char>)> = Seq::empty();
    assert(bs.take(0) =~= Seq::<BuTextM>::empty());
    assert(tests_m(out@) =~= mid + acc2);
    let mut j: usize = 0;
    while j < bus.len()
        invariant
            j <= bus.len(),
            bs == refs_m(bus@),
            f == butexts_m(dir.files@),
            bs == sources(f),
            texts_fit(bs),
            sources_tests(bs.take(j as int)) == Ok::<Seq<(Seq<char>, Seq<char>)>, Seq<char>>(acc2),
            tests_m(out@) == mid + acc2,
        decreases bus.len() - j,
    {
        assert(bs.take(j + 1).drop_last() =~= bs.take(j as int));
        assert(bs.take(j + 1).last() == bs[j as int]);
        assert(bs[j as int] == butext_m(*bus@[j as int]));
        assert(text_fits(bs[j as int].text));
        let ghost res = source_tests(bs[j as int]);
        assert(sources_tests(bs.take(j + 1)) == then_tests(sources_tests(bs.take(j as int)), res));
        match collect_file_tests(bus[j], out) {
            Some(m) => {
                proof {
                    assert(res == Err::<Seq<(Seq<char>, Seq<char>)>, Seq<char>>(m@));
                    lemma_sources_tests_stop(bs, j + 1);
                }
                return Some(m);
            },
            None => {
                proof {
                    let x = match res { Ok(x) => x, Err(_) => Seq::empty() };
                    acc2 = acc2 + x;
                    assert(tests_m(out@) =~= mid + acc2);
                }
            },
        }
        j = j + 1;
    }
    assert(bs.take(bus.len() as int) =~= bs);
    None
}

/// Every `#test` function of a project tree, in tree order (sub-folders
/// before a folder's own files), or the message the tool stops with.
pub fn collect_tests(root: &Folder) -> (r: Result<Vec<TestFn>, String>)
    requires
        tree_fits(folder_m(*root)),
    ensures
        match folder_tests(folder_m(*root)) {
            Ok(x) => r matches Ok(v) && tests_m(v@) == x,
            Err(m) => r matches Err(t) && t@ == m,
        },
{
    let mut out: Vec<TestFn> = Vec::new();
    assert(tests_m(out@) =~= Seq::<(Seq<char>, Seq<char>)>::empty());
    match collect_tests_in(root, &mut out) {
        Some(m) => Err(m),
        None => Ok(out),
    }
}


// ── Backend ──────────────────────────────────────────────────────────────────

/// The backend tests run in: the root inventory's `#lang` when it names a
/// known backend, else the one `ext` names, else Rust.
pub open spec fn test_backend_m(lang: Option<Backend>, ext: Seq<char>) -> Backend {
    match (match lang {
        Some(l) => backend_for_ext(backend_ext(l)),
        None => None,
    }) {
        Some(b) => b,
        None => match backend_for_ext(ext) {
            Some(b) => b,
            None => Backend::Rust,
        },
    }
}

pub fn test_backend(lang: &Option<Backend>, ext: &str) -> (r: Backend)
    ensures
        r == test_backend_m(*lang, ext@),
{
    let from_lang = match lang {
        Some(l) => Backend::from_ext(l.ext()),
        None => None,
    };
    match from_lang {
        Some(b) => b,
        None => match Backend::from_ext(ext) {
            Some(b) => b,
            None => Backend::Rust,
        },
    }
}

// ── Harnesses ────────────────────────────────────────────────────────────────

/// A template filled once per test, in order: `{0}` is the test's name, `{1}`
/// its module, `{2}` its name with the first letter in upper case.
pub open spec fn each_test(ts: Seq<(Seq<char>, Seq<char>)>, tpl: Seq<char>) -> Seq<char>
    decreases ts.len(),
{
    if ts.len() == 0 {
        Seq::empty()
    } else {
        each_test(ts.drop_last(), tpl) + render(tpl, seq![ts.last().0, ts.last().1, capital(ts.last().0)])
    }
}

/// The first character made upper case when it is an ASCII letter.
fn ascii_capitalize(s: &str) -> (r: String)
    ensures
        r@ == capital(s@),
{
    let v = crate::text::chars_of(s);
    if v.len() == 0 {
        return String::new();
    }
    let c = v[0];
    let mut first = c;
    if 'a' <= c && c <= 'z' {
        let b = c as u8;
        first = (b - 32) as char;
    }
    let mut r = String::new();
    crate::text::push_char(&mut r, first);
    let rest = crate::text::slice_string(&v, 1, v.len());
    r.append(rest.as_str());
    assert(r@ =~= capital(s@));
    r
}

fn each_test_text(tests: &Vec<TestFn>, tpl: &str) -> (r: String)
    ensures
        r@ == each_test(tests_m(tests@), tpl@),
{
    let ghost ts = tests_m(tests@);
    let mut out = String::new();
    let mut i: usize = 0;
    assert(ts.take(0) =~= Seq::<(Seq<char>, Seq<char>)>::empty());
    while i < tests.len()
        invariant
            i <= tests.len(),
            ts == tests_m(tests@),
            out@ == each_test(ts.take(i as int), tpl@),
        decreases tests.len() - i,
    {
        assert(ts.take(i + 1).drop_last() =~= ts.take(i as int));
        assert(ts.take(i + 1).last() == test_m(tests@[i as int]));
        let mut args: Vec<String> = Vec::new();
        args.push(owned(tests[i].name.as_str()));
        args.push(owned(tests[i].module.as_str()));
        args.push(ascii_capitalize(tests[i].name.as_str()));
        assert(strs_m(args@) =~= seq![tests@[i as int].name@, tests@[i as int].module@, capital(tests@[i as int].name@)]);
        out.append(render_template(tpl, &args).as_str());
        i = i + 1;
    }
    assert(ts.take(tests.len() as int) =~= ts);
    out
}

pub const RUST_TEST_CASE: &'static str = "    #[test]\n    fn {0}() {{\n        assert!(super::{0}());\n    }}\n";
pub const C_TEST_DECL: &'static str = "extern int {0}(void);\n";
pub const C_TEST_CASE: &'static str = "    if ({0}()) {{ printf(\"  ok  {0}\\n\"); passed++; }}\n    else           {{ printf(\"  FAIL {0}\\n\"); failed++; }}\n";
pub const CPP_TEST_DECL: &'static str = "extern bool {0}();\n";
pub const CPP_TEST_CASE: &'static str = "    if ({0}()) {{ std::cout << \"  ok  {0}\" << std::endl; passed++; }}\n    else           {{ std::cout << \"  FAIL {0}\" << std::endl; failed++; }}\n";
pub const PY_TEST_CASE: &'static str = "    def test_{0}(self):\n        self.assertTrue({1}.{0}())\n\n";
pub const GO_TEST_CASE: &'static str = "func Test{2}(t *testing.T) {{\n    if !{0}() {{ t.Fail() }}\n}}\n\n";

/// What a Rust test run appends to the generated `lib.rs`: a test module
/// with one `#[test]` per test function.
pub open spec fn rust_harness_text(ts: Seq<(Seq<char>, Seq<char>)>) -> Seq<char> {
    "\n#[cfg(test)]\nmod tests {\n    use super::*;\n"@ + each_test(ts, RUST_TEST_CASE@) + "}\n"@
}

pub fn rust_harness(tests: &Vec<TestFn>) -> (r: String)
    ensures
        r@ == rust_harness_text(tests_m(tests@)),
{
    let mut r = owned("\n#[cfg(test)]\nmod tests {\n    use super::*;\n");
    r.append(each_test_text(tests, RUST_TEST_CASE).as_str());
    r.append("}\n");
    r
}

/// A C `main` that calls each test and counts passes and failures.
pub open spec fn c_harness_text(ts: Seq<(Seq<char>, Seq<char>)>) -> Seq<char> {
    "#include <stdio.h>\n#include <stdlib.h>\n\n"@ + each_test(ts, C_TEST_DECL@)
        + "\nint main(void) {\n    int passed = 0, failed = 0;\n\n"@ + each_test(ts, C_TEST_CASE@)
        + "\n    printf(\"\\n%d passed, %d failed\\n\", passed, failed);\n    return failed > 0 ? 1 : 0;\n}\n"@
}

pub fn c_harness(tests: &Vec<TestFn>) -> (r: String)
    ensures
        r@ == c_harness_text(tests_m(tests@)),
{
    let mut r = owned("#include <stdio.h>\n#include <stdlib.h>\n\n");
    r.append(each_test_text(tests, C_TEST_DECL).as_str());
    r.append("\nint main(void) {\n    int passed = 0, failed = 0;\n\n");
    r.append(each_test_text(tests, C_TEST_CASE).as_str());
    r.append("\n    printf(\"\\n%d passed, %d failed\\n\", passed, failed);\n    return failed > 0 ? 1 : 0;\n}\n");
    r
}

/// A C++ `main` that calls each test and counts passes and failures.
pub open spec fn cpp_harness_text(ts: Seq<(Seq<char>, Seq<char>)>) -> Seq<char> {
    "#include <iostream>\n\n"@ + each_test(ts, CPP_TEST_DECL@) + "\nint main() {\n    int passed = 0, failed = 0;\n\n"@
        + each_test(ts, CPP_TEST_CASE@)
        + "\n    std::cout << passed << \" passed, \" << failed << \" failed\" << std::endl;\n    return failed > 0 ? 1 : 0;\n}\n"@
}

pub fn cpp_harness(tests: &Vec<TestFn>) -> (r: String)
    ensures
        r@ == cpp_harness_text(tests_m(tests@)),
{
    let mut r = owned("#include <iostream>\n\n");
    r.append(each_test_text(tests, CPP_TEST_DECL).as_str());
    r.append("\nint main() {\n    int passed = 0, failed = 0;\n\n");
    r.append(each_test_text(tests, CPP_TEST_CASE).as_str());
    r.append("\n    std::cout << passed << \" passed, \" << failed << \" failed\" << std::endl;\n    return failed > 0 ? 1 : 0;\n}\n");
    r
}

/// `import <m>` for each module, in order.
pub open spec fn imports_text(ms: Seq<Seq<char>>) -> Seq<char>
    decreases ms.len(),
{
    if ms.len() == 0 { Seq::empty() } else { imports_text(ms.drop_last()) + "import "@ + ms.last() + "\n"@ }
}

/// A Python `unittest` module with one test method per test; each module
/// holding a test is imported once.
pub open spec fn python_harness_text(ts: Seq<(Seq<char>, Seq<char>)>) -> Seq<char> {
    "import unittest\n\n"@ + imports_text(dedup(ts.map_values(|t: (Seq<char>, Seq<char>)| t.1)))
        + "\nclass BullangTests(unittest.TestCase):\n"@ + each_test(ts, PY_TEST_CASE@)
        + "if __name__ == '__main__':\n    unittest.main()\n"@
}

pub fn python_harness(tests: &Vec<TestFn>) -> (r: String)
    ensures
        r@ == python_harness_text(tests_m(tests@)),
{
    let ghost ts = tests_m(tests@);
    let mut modules: Vec<String> = Vec::new();
    let mut i: usize = 0;
    while i < tests.len()
        invariant
            i <= tests.len(),
            ts == tests_m(tests@),
            strs_m(modules@) == ts.take(i as int).map_values(|t: (Seq<char>, Seq<char>)| t.1),
        decreases tests.len() - i,
    {
        let ghost before = strs_m(modules@);
        modules.push(owned(tests[i].module.as_str()));
        assert(strs_m(modules@) =~= before.push(tests@[i as int].module@));
        assert(ts.take(i + 1).map_values(|t: (Seq<char>, Seq<char>)| t.1)
            =~= ts.take(i as int).map_values(|t: (Seq<char>, Seq<char>)| t.1).push(tests@[i as int].module@));
        i = i + 1;
    }
    assert(ts.take(tests.len() as int) =~= ts);
    let modules = dedup_strs(&modules);
    let ghost ms = strs_m(modules@);
    let mut r = owned("import unittest\n\n");
    let ghost head = r@;
    let mut j: usize = 0;
    assert(ms.take(0) =~= Seq::<Seq<char>>::empty());
    assert(r@ =~= head + imports_text(ms.take(0)));
    while j < modules.len()
        invariant
            j <= modules.len(),
            ms == strs_m(modules@),
            r@ == head + imports_text(ms.take(j as int)),
        decreases modules.len() - j,
    {
        assert(ms.take(j + 1).drop_last() =~= ms.take(j as int));
        assert(ms.take(j + 1).last() == modules@[j as int]@);
        r.append("import ");
        r.append(modules[j].as_str());
        r.append("\n");
        assert(r@ =~= head + imports_text(ms.take(j + 1)));
        j = j + 1;
    }
    assert(ms.take(modules.len() as int) =~= ms);
    r.append("\nclass BullangTests(unittest.TestCase):\n");
    r.append(each_test_text(tests, PY_TEST_CASE).as_str());
    r.append("if __name__ == '__main__':\n    unittest.main()\n");
    r
}

/// A Go test file with one `TestX` function per test.
pub open spec fn go_harness_text(ts: Seq<(Seq<char>, Seq<char>)>) -> Seq<char> {
    "package main\n\nimport \"testing\"\n\n"@ + each_test(ts, GO_TEST_CASE@)
}

pub fn go_harness(tests: &Vec<TestFn>) -> (r: String)
    ensures
        r@ == go_harness_text(tests_m(tests@)),
{
    let mut r = owned("package main\n\nimport \"testing\"\n\n");
    r.append(each_test_text(tests, GO_TEST_CASE).as_str());
    r
}

} // verus!
