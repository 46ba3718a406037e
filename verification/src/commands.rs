//! What the command-line tool decides and prints around the library: the
//! target of a conversion, the conversion of a single file, and the listings
//! it shows.

use vstd::prelude::*;
use crate::ast::{Backend, BuFile, Rank, SourceFile, backend_ext, backend_for_ext, backend_name, rank_name};
use crate::codegen::{emit_mod_rs, emit_source, module_list_text, source_text};
use crate::grammar::Outcome;
use crate::init::{BlueprintResult, InitResult};
use crate::model::{BuFileM, source_m, strs_m};
use crate::parser::{ParseError, file_outcome, parse_file, pest_error_text};
use crate::paths::{components, components_of, file_name_of, is_name, path_starts_with, starts_with};
use crate::stdlib::{builtin_table, catalogue_m, list_builtins};
use crate::text::{owned, str_eq};
use crate::typecheck::{TypeError, file_alone_tc, terrs_m, typecheck_file};
use crate::validator::{ErrM, ValidationError, errs_m, source_errs, validate_source_direct};

verus! {

// ── The target of a conversion ───────────────────────────────────────────────

/// The extension a conversion uses: the root inventory's `#lang` when the
/// extension was left at its default `rs`, else the one given.
pub open spec fn resolved_ext(ext: Seq<char>, lang: Option<crate::ast::Backend>) -> Seq<char> {
    if ext == "rs"@ {
        match lang {
            Some(l) => backend_ext(l),
            None => ext,
        }
    } else {
        ext
    }
}

pub fn resolve_ext(ext: &str, lang: &Option<Backend>) -> (r: String)
    ensures
        r@ == resolved_ext(ext@, *lang),
{
    if str_eq(ext, "rs") {
        match lang {
            Some(l) => owned(l.ext()),
            None => owned(ext),
        }
    } else {
        owned(ext)
    }
}

/// The error for an extension that names no backend.
pub fn unknown_ext_message(ext: &str) -> (r: String)
    ensures
        r@ == "error: unknown extension '"@ + ext@ + "' \u{2014} supported: rs, py, c, cpp, go"@,
{
    let mut m = owned("error: unknown extension '");
    m.append(ext);
    m.append("' \u{2014} supported: rs, py, c, cpp, go");
    m
}

/// The name of the output folder: the one given, or `_<source name>`.
pub fn default_out_name(name: &Option<String>, source_name: &str) -> (r: String)
    ensures
        r@ == (match name {
            Some(n) => n@,
            None => "_"@ + source_name@,
        }),
{
    match name {
        Some(n) => owned(n.as_str()),
        None => {
            let mut r = owned("_");
            r.append(source_name);
            r
        },
    }
}

/// The output folder lies inside the source tree, or contains it.
pub fn output_overlaps(out_dir: &str, root: &str) -> (r: bool)
    ensures
        r == (path_starts_with(out_dir@, root@) || path_starts_with(root@, out_dir@)),
{
    starts_with(out_dir, root) || starts_with(root, out_dir)
}

/// The summary printed before a conversion.
pub open spec fn convert_header_lines(root: Seq<char>, rank: Rank, out_dir: Seq<char>, crate_name: Seq<char>, backend: Backend) -> Seq<Seq<char>> {
    seq![
        "bullang convert"@,
        "  source  : "@ + root + " ("@ + rank_name(rank) + ")"@,
        "  output  : "@ + out_dir,
        "  crate   : "@ + crate_name,
        "  backend : "@ + backend_name(backend),
        Seq::empty(),
    ]
}

pub fn convert_header(root: &str, rank: &Rank, out_dir: &str, crate_name: &str, backend: &Backend) -> (r: Vec<String>)
    ensures
        strs_m(r@) == convert_header_lines(root@, *rank, out_dir@, crate_name@, *backend),
{
    let mut r: Vec<String> = Vec::new();
    r.push(owned("bullang convert"));
    let mut l = owned("  source  : ");
    l.append(root);
    l.append(" (");
    l.append(rank.name());
    l.append(")");
    r.push(l);
    let mut l = owned("  output  : ");
    l.append(out_dir);
    r.push(l);
    let mut l = owned("  crate   : ");
    l.append(crate_name);
    r.push(l);
    let mut l = owned("  backend : ");
    l.append(backend.name());
    r.push(l);
    r.push(String::new());
    assert(strs_m(r@) =~= convert_header_lines(root@, *rank, out_dir@, crate_name@, *backend));
    r
}

/// How to compile or run the converted project, by backend; for an unknown
/// backend, the error to report instead.
pub open spec fn run_hint_lines(backend: Backend, out_dir: Seq<char>, crate_name: Seq<char>) -> Result<Seq<Seq<char>>, Seq<char>> {
    match backend {
        Backend::Rust => Ok(seq!["to compile:"@, "  cd "@ + out_dir + " && cargo build"@]),
        Backend::Python => Ok(seq!["to run:"@, "  cd "@ + out_dir + " && python3 -m "@ + crate_name]),
        Backend::C => Ok(seq!["to compile:"@, "  cd "@ + out_dir + " && make"@]),
        Backend::Cpp => Ok(seq!["to compile:"@, "  cd "@ + out_dir + " && make"@]),
        Backend::Go => Ok(seq!["to run:"@, "  cd "@ + out_dir + " && go run ."@]),
        Backend::Unknown(kw) => Err("error: unknown backend '"@ + kw@ + "'"@),
    }
}

pub open spec fn lines_res_m(r: Result<Vec<String>, String>) -> Result<Seq<Seq<char>>, Seq<char>> {
    match r {
        Ok(v) => Ok(strs_m(v@)),
        Err(e) => Err(e@),
    }
}

pub fn run_hint(backend: &Backend, out_dir: &str, crate_name: &str) -> (r: Result<Vec<String>, String>)
    ensures
        lines_res_m(r) == run_hint_lines(*backend, out_dir@, crate_name@),
{
    let mut r: Vec<String> = Vec::new();
    let mut l = owned("  cd ");
    l.append(out_dir);
    match backend {
        Backend::Rust => {
            r.push(owned("to compile:"));
            l.append(" && cargo build");
        },
        Backend::Python => {
            r.push(owned("to run:"));
            l.append(" && python3 -m ");
            l.append(crate_name);
        },
        Backend::C => {
            r.push(owned("to compile:"));
            l.append(" && make");
        },
        Backend::Cpp => {
            r.push(owned("to compile:"));
            l.append(" && make");
        },
        Backend::Go => {
            r.push(owned("to run:"));
            l.append(" && go run .");
        },
        Backend::Unknown(kw) => {
            let mut m = owned("error: unknown backend '");
            m.append(kw.as_str());
            m.append("'");
            return Err(m);
        },
    }
    r.push(l);
    assert(strs_m(r@) =~= run_hint_lines(*backend, out_dir@, crate_name@)->Ok_0);
    Ok(r)
}

// ── Converting one file ──────────────────────────────────────────────────────

/// The outcome of converting one file on its own.
pub enum FileConversion {
    /// The generated code.
    Converted(String),
    /// The file breaks the grammar; the diagnostic.
    ParseFailed(String),
    /// The file lies outside the language; the tool stops with this message.
    Aborted(String),
    /// Structural errors.
    Invalid(Vec<ValidationError>),
    /// Type errors.
    IllTyped(Vec<TypeError>),
}

pub enum ConversionM {
    Converted(Seq<char>),
    ParseFailed(Seq<char>),
    Aborted(Seq<char>),
    Invalid(Seq<ErrM>),
    IllTyped(Seq<ErrM>),
}

pub open spec fn conversion_m(c: FileConversion) -> ConversionM {
    match c {
        FileConversion::Converted(s) => ConversionM::Converted(s@),
        FileConversion::ParseFailed(s) => ConversionM::ParseFailed(s@),
        FileConversion::Aborted(s) => ConversionM::Aborted(s@),
        FileConversion::Invalid(v) => ConversionM::Invalid(errs_m(v@)),
        FileConversion::IllTyped(v) => ConversionM::IllTyped(terrs_m(v@)),
    }
}

/// A single file converted without its tree: parsed (as an inventory when it
/// is named `inventory.bu`), checked as a skirmish file that calls nothing,
/// type-checked on its own, then rendered; an inventory renders as an empty
/// module list.
pub open spec fn file_conversion(source: Seq<char>, file_name: Seq<char>, path: Seq<char>) -> ConversionM {
    match file_outcome(source, file_name == "inventory.bu"@) {
        Outcome::Fail(p, m) => ConversionM::ParseFailed(pest_error_text(source, p as nat, m)),
        Outcome::Abort(m) => ConversionM::Aborted(m),
        Outcome::Done(BuFileM::Inventory(_), _) => ConversionM::Converted(module_list_text(Seq::empty())),
        Outcome::Done(BuFileM::Source(bs), _) => {
            let errs = source_errs(bs, path, Seq::empty(), true);
            if errs.len() > 0 {
                ConversionM::Invalid(errs)
            } else {
                let te = file_alone_tc(bs, path);
                if te.len() > 0 { ConversionM::IllTyped(te) } else { ConversionM::Converted(source_text(bs)) }
            }
        },
    }
}

/// Converts the text of one `.bu` file named `file_name`, shown as `path`.
pub fn convert_file(source: &str, file_name: &str, path: &str) -> (r: FileConversion)
    requires
        source@.len() < usize::MAX,
    ensures
        conversion_m(r) == file_conversion(source@, file_name@, path@),
{
    let is_inv = str_eq(file_name, "inventory.bu");
    match parse_file(source, is_inv) {
        Err(ParseError::Syntax(e)) => FileConversion::ParseFailed(e),
        Err(ParseError::Aborted(m)) => FileConversion::Aborted(m),
        Ok(BuFile::Inventory(_)) => {
            let none: Vec<String> = Vec::new();
            assert(strs_m(none@) =~= Seq::<Seq<char>>::empty());
            FileConversion::Converted(emit_mod_rs(none.as_slice()))
        },
        Ok(BuFile::Source(sf)) => {
            let no_calls: Vec<String> = Vec::new();
            assert(strs_m(no_calls@) =~= Seq::<Seq<char>>::empty());
            let errors = validate_source_direct(&sf, path, &no_calls, &Rank::Skirmish);
            if errors.len() > 0 {
                return FileConversion::Invalid(errors);
            }
            let type_errors = typecheck_file(&sf, path);
            if type_errors.len() > 0 {
                return FileConversion::IllTyped(type_errors);
            }
            FileConversion::Converted(emit_source(&sf))
        },
    }
}


// ── The builtin catalogue ────────────────────────────────────────────────────

/// `n` spaces.
pub open spec fn spaces(n: nat) -> Seq<char> {
    Seq::new(n, |i: int| ' ')
}

/// The text padded with spaces to `w` characters (`{:<w}`).
pub open spec fn pad_right(s: Seq<char>, w: nat) -> Seq<char> {
    if s.len() >= w { s } else { s + spaces((w - s.len()) as nat) }
}

fn padded(s: &str, w: usize) -> (r: String)
    ensures
        r@ == pad_right(s@, w as nat),
{
    let v = crate::text::chars_of(s);
    let mut r = owned(s);
    let mut n: usize = v.len();
    while n < w
        invariant
            v.len() <= n <= w || (n == v.len() && n >= w),
            r@ == s@ + spaces((n - v.len()) as nat),
            v@ == s@,
        decreases w - n,
    {
        let ghost before = r@;
        crate::text::push_char(&mut r, ' ');
        assert(r@ =~= s@ + spaces((n + 1 - v.len()) as nat));
        n = n + 1;
    }
    assert(s@.len() < w ==> r@ =~= pad_right(s@, w as nat));
    assert(s@.len() >= w ==> r@ =~= s@);
    r
}

/// A math builtin (the rest are string builtins).
pub open spec fn is_math(n: Seq<char>) -> bool {
    n == "abs"@ || n == "pow"@ || n == "powf"@ || n == "sqrt"@ || n == "clamp"@
}

/// One catalogue line: name (padded to 14), signature and description.
pub open spec fn catalogue_line(t: (Seq<char>, Seq<char>, Seq<char>)) -> Seq<char> {
    "    builtin::"@ + pad_right(t.0, 14) + "  "@ + t.1 + "  \u{2014} "@ + t.2
}

/// The catalogue lines of the math builtins (or of the others).
pub open spec fn catalogue_lines(ts: Seq<(Seq<char>, Seq<char>, Seq<char>)>, math: bool) -> Seq<Seq<char>>
    decreases ts.len(),
{
    if ts.len() == 0 {
        Seq::empty()
    } else {
        catalogue_lines(ts.drop_last(), math) + (if is_math(ts.last().0) == math {
            seq![catalogue_line(ts.last())]
        } else {
            Seq::empty()
        })
    }
}

/// What `bullang stdlib` prints.
pub open spec fn stdlib_lines() -> Seq<Seq<char>> {
    seq!["Bullang standard library"@, "Available in every backend"@, Seq::empty(), "  Math"@, "  ----"@]
        + catalogue_lines(builtin_table(), true)
        + seq![Seq::empty(), "  String"@, "  ------"@]
        + catalogue_lines(builtin_table(), false)
        + seq![
            Seq::empty(),
            "Usage in a source file:"@,
            Seq::empty(),
            "  let upper(s: String) -> result: String {"@,
            "      builtin::to_upper"@,
            "  }"@,
            Seq::empty(),
            "  let absolute(x: i32) -> result: i32 {"@,
            "      builtin::abs"@,
            "  }"@,
            Seq::empty(),
            "The function's parameters are passed to the builtin."@,
            "Parameter counts are enforced at build time."@,
        ]
}

fn push_line(r: &mut Vec<String>, l: String)
    ensures
        strs_m(final(r)@) == strs_m(old(r)@).push(l@),
{
    let ghost before = r@;
    r.push(l);
    assert(strs_m(r@) =~= strs_m(before).push(l@));
}

fn push_catalogue(r: &mut Vec<String>, table: &Vec<(&'static str, &'static str, &'static str)>, math: bool)
    ensures
        strs_m(final(r)@) == strs_m(old(r)@) + catalogue_lines(catalogue_m(table@), math),
{
    let ghost ts = catalogue_m(table@);
    let ghost start = strs_m(r@);
    let mut i: usize = 0;
    assert(ts.take(0) =~= Seq::<(Seq<char>, Seq<char>, Seq<char>)>::empty());
    assert(strs_m(r@) =~= start + catalogue_lines(ts.take(0), math));
    while i < table.len()
        invariant
            i <= table.len(),
            ts == catalogue_m(table@),
            strs_m(r@) == start + catalogue_lines(ts.take(i as int), math),
        decreases table.len() - i,
    {
        assert(ts.take(i + 1).drop_last() =~= ts.take(i as int));
        assert(ts.take(i + 1).last() == (table@[i as int].0@, table@[i as int].1@, table@[i as int].2@));
        let (name, sig, desc) = table[i];
        let m = str_eq(name, "abs") || str_eq(name, "pow") || str_eq(name, "powf") || str_eq(name, "sqrt")
            || str_eq(name, "clamp");
        if m == math {
            let mut l = owned("    builtin::");
            l.append(padded(name, 14).as_str());
            l.append("  ");
            l.append(sig);
            l.append("  \u{2014} ");
            l.append(desc);
            push_line(r, l);
        }
        assert(strs_m(r@) =~= start + catalogue_lines(ts.take(i + 1), math));
        i = i + 1;
    }
    assert(ts.take(table.len() as int) =~= ts);
}

/// The lines `bullang stdlib` prints.
pub fn stdlib_listing() -> (r: Vec<String>)
    ensures
        strs_m(r@) == stdlib_lines(),
{
    let table = list_builtins();
    let mut r: Vec<String> = Vec::new();
    push_line(&mut r, owned("Bullang standard library"));
    push_line(&mut r, owned("Available in every backend"));
    push_line(&mut r, String::new());
    push_line(&mut r, owned("  Math"));
    push_line(&mut r, owned("  ----"));
    push_catalogue(&mut r, &table, true);
    push_line(&mut r, String::new());
    push_line(&mut r, owned("  String"));
    push_line(&mut r, owned("  ------"));
    push_catalogue(&mut r, &table, false);
    push_line(&mut r, String::new());
    push_line(&mut r, owned("Usage in a source file:"));
    push_line(&mut r, String::new());
    push_line(&mut r, owned("  let upper(s: String) -> result: String {"));
    push_line(&mut r, owned("      builtin::to_upper"));
    push_line(&mut r, owned("  }"));
    push_line(&mut r, String::new());
    push_line(&mut r, owned("  let absolute(x: i32) -> result: i32 {"));
    push_line(&mut r, owned("      builtin::abs"));
    push_line(&mut r, owned("  }"));
    push_line(&mut r, String::new());
    push_line(&mut r, owned("The function's parameters are passed to the builtin."));
    push_line(&mut r, owned("Parameter counts are enforced at build time."));
    assert(strs_m(r@) =~= stdlib_lines());
    r
}


// ── Listings of a scaffolding ────────────────────────────────────────────────

/// The components of `path` below `root`, or all of them when it is not
/// below `root` (`Path::strip_prefix`).
pub open spec fn rel_components(path: Seq<char>, root: Seq<char>) -> Seq<Seq<char>> {
    if path_starts_with(path, root) {
        components_of(path).skip(components_of(root).len() as int)
    } else {
        components_of(path)
    }
}

/// The last name of a list of components, or `?`.
pub open spec fn last_name(c: Seq<Seq<char>>) -> Seq<char> {
    if c.len() > 0 && is_name(c.last()) { c.last() } else { "?"@ }
}

/// Two spaces per level.
pub open spec fn indent(n: nat) -> Seq<char>
    decreases n,
{
    if n == 0 { Seq::empty() } else { indent((n - 1) as nat) + "  "@ }
}

/// How a created file is labelled: inventories and the entry point (or, for
/// a blueprint project, the copied blueprint) are marked.
pub open spec fn label(name: Seq<char>, blueprint: bool) -> Seq<char> {
    if name == "inventory.bu"@ {
        name + " (inventory)"@
    } else if !blueprint && name == "main.bu"@ {
        name + " (entry point)"@
    } else if blueprint && name == "blueprint.bu"@ {
        name + " (blueprint \u{2014} copied)"@
    } else {
        name
    }
}

/// The lines for one created file: the folder it opens (before an inventory
/// below the root), then the file, indented by its depth.
pub open spec fn file_lines(path: Seq<char>, root: Seq<char>, blueprint: bool) -> Seq<Seq<char>> {
    let rel = rel_components(path, root);
    let depth: nat = if rel.len() > 0 { (rel.len() - 1) as nat } else { 0 };
    let name = last_name(rel);
    (if name == "inventory.bu"@ && depth > 0 {
        seq!["  "@ + indent((depth - 1) as nat) + last_name(rel.drop_last()) + "/"@]
    } else {
        Seq::empty()
    }) + seq!["  "@ + indent(depth) + "  "@ + label(name, blueprint)]
}

pub open spec fn files_lines(files: Seq<Seq<char>>, root: Seq<char>, blueprint: bool) -> Seq<Seq<char>>
    decreases files.len(),
{
    if files.len() == 0 {
        Seq::empty()
    } else {
        files_lines(files.drop_last(), root, blueprint) + file_lines(files.last(), root, blueprint)
    }
}

/// What the tool prints after a scaffolding.
pub open spec fn listing_lines(root: Seq<char>, files: Seq<Seq<char>>, blueprint: bool) -> Seq<Seq<char>> {
    seq!["created: "@ + root, Seq::empty()] + files_lines(files, root, blueprint)
}

fn indent_text(n: usize) -> (r: String)
    ensures
        r@ == indent(n as nat),
{
    let mut r = String::new();
    let mut i: usize = 0;
    while i < n
        invariant
            i <= n,
            r@ == indent(i as nat),
        decreases n - i,
    {
        r.append("  ");
        i = i + 1;
    }
    r
}

fn last_name_of(c: &Vec<String>, end: usize) -> (r: String)
    requires
        end <= c.len(),
    ensures
        r@ == last_name(strs_m(c@).take(end as int)),
{
    if end > 0 {
        let last = c[end - 1].as_str();
        if !str_eq(last, "/") && !str_eq(last, ".") && !str_eq(last, "..") {
            return owned(last);
        }
    }
    owned("?")
}

fn push_file_lines(r: &mut Vec<String>, path: &str, root: &str, blueprint: bool)
    ensures
        strs_m(final(r)@) == strs_m(old(r)@) + file_lines(path@, root@, blueprint),
{
    let cp = components(path);
    let cr = components(root);
    let under = starts_with(path, root);
    let from: usize = if under { cr.len() } else { 0 };
    let ghost rel = rel_components(path@, root@);
    assert(strs_m(cp@).skip(from as int) =~= rel);
    let n = cp.len() - from;
    let depth: usize = if n > 0 { n - 1 } else { 0 };
    let name = if n > 0 { last_name_of(&cp, cp.len()) } else { owned("?") };
    proof { reveal_strlit("?"); }
    assert(strs_m(cp@).take(cp.len() as int) =~= strs_m(cp@));
    assert(rel.len() > 0 ==> rel.last() == strs_m(cp@).last());
    assert(name@ == last_name(rel));
    let ghost start = strs_m(r@);
    if str_eq(name.as_str(), "inventory.bu") && depth > 0 {
        let folder = last_name_of(&cp, cp.len() - 1);
        assert(strs_m(cp@).take(cp.len() - 1) .skip(from as int) =~= rel.drop_last());
        assert(rel.drop_last().len() > 0 ==> rel.drop_last().last() == strs_m(cp@).take(cp.len() - 1).last());
        assert(folder@ == last_name(rel.drop_last()));
        let mut l = owned("  ");
        l.append(indent_text(depth - 1).as_str());
        l.append(folder.as_str());
        l.append("/");
        push_line(r, l);
    }
    assert(strs_m(r@) =~= start + (if name@ == "inventory.bu"@ && depth > 0 {
        seq!["  "@ + indent((depth - 1) as nat) + last_name(rel.drop_last()) + "/"@]
    } else {
        Seq::<Seq<char>>::empty()
    }));
    let mut l = owned("  ");
    l.append(indent_text(depth).as_str());
    l.append("  ");
    if str_eq(name.as_str(), "inventory.bu") {
        l.append(name.as_str());
        l.append(" (inventory)");
    } else if !blueprint && str_eq(name.as_str(), "main.bu") {
        l.append(name.as_str());
        l.append(" (entry point)");
    } else if blueprint && str_eq(name.as_str(), "blueprint.bu") {
        l.append(name.as_str());
        l.append(" (blueprint \u{2014} copied)");
    } else {
        l.append(name.as_str());
    }
    assert(rel.len() == n);
    assert(l@ =~= "  "@ + indent(depth as nat) + "  "@ + label(name@, blueprint));
    let ghost mid = strs_m(r@);
    push_line(r, l);
    assert(strs_m(r@) =~= start + file_lines(path@, root@, blueprint));
}

fn listing(root: &str, files: &Vec<String>, blueprint: bool) -> (r: Vec<String>)
    ensures
        strs_m(r@) == listing_lines(root@, strs_m(files@), blueprint),
{
    let ghost fs = strs_m(files@);
    let mut r: Vec<String> = Vec::new();
    let mut l = owned("created: ");
    l.append(root);
    push_line(&mut r, l);
    push_line(&mut r, String::new());
    let ghost head = strs_m(r@);
    let mut i: usize = 0;
    assert(fs.take(0) =~= Seq::<Seq<char>>::empty());
    assert(strs_m(r@) =~= head + files_lines(fs.take(0), root@, blueprint));
    while i < files.len()
        invariant
            i <= files.len(),
            fs == strs_m(files@),
            strs_m(r@) == head + files_lines(fs.take(i as int), root@, blueprint),
        decreases files.len() - i,
    {
        assert(fs.take(i + 1).drop_last() =~= fs.take(i as int));
        assert(fs.take(i + 1).last() == files@[i as int]@);
        push_file_lines(&mut r, files[i].as_str(), root, blueprint);
        assert(strs_m(r@) =~= head + files_lines(fs.take(i + 1), root@, blueprint));
        i = i + 1;
    }
    assert(fs.take(files.len() as int) =~= fs);
    assert(strs_m(r@) =~= listing_lines(root@, fs, blueprint));
    r
}

/// What the tool prints after scaffolding a project.
pub fn init_listing(result: &InitResult) -> (r: Vec<String>)
    ensures
        strs_m(r@) == listing_lines(result.root@, strs_m(result.files_created@), false),
{
    listing(result.root.as_str(), &result.files_created, false)
}

/// What the tool prints after scaffolding a project from a blueprint.
pub fn blueprint_listing(result: &BlueprintResult) -> (r: Vec<String>)
    ensures
        strs_m(r@) == listing_lines(result.root@, strs_m(result.files_created@), true),
{
    listing(result.root.as_str(), &result.files_created, true)
}

} // verus!
