//! The build pass: a project tree rendered as the files of the output crate,
//! folder by folder, sub-folders first.

use vstd::prelude::*;
use crate::ast::{Backend, BuFile, Rank, backend_ext};
use crate::codegen::{cargo_text, cargo_with_main_text, emit_cargo_toml, emit_cargo_toml_with_main, emit_lib_rs, emit_main, emit_mod_rs, emit_source, main_text, module_list_text, source_text};
use crate::grammar::{Outcome, source_file};
use crate::model::{BulletM, EntryM, entry_m, inventory_m, strs_m};
use crate::parser::{ParseError, parse_file, pest_error_text};
use crate::project::{
    BuText, BuTextM, Folder, FolderM, Loaded, LoadedM, butext_m, butexts_m, find_file, find_index, find_named,
    folder_m, folders_m, inventory_of, join, join_path, lemma_find_index, lemma_folders_m, lemma_trees_fit,
    main_bu_path, read_inventory, text_fits, texts_fit, tree_fits, trees_fit,
};
use crate::text::{concat, owned};
use crate::validator::{ErrM, ValidationError, errs_m, whole};

verus! {

// ── What a build produces ────────────────────────────────────────────────────

/// What building part of a tree produces: the modules it declares to its
/// parent, the files to write (path and contents, in order) and the errors.
#[verifier::ext_equal]
pub struct BuildM {
    pub modules: Seq<Seq<char>>,
    pub writes: Seq<(Seq<char>, Seq<char>)>,
    pub errs: Seq<ErrM>,
}

pub open spec fn nothing() -> BuildM {
    BuildM { modules: Seq::empty(), writes: Seq::empty(), errs: Seq::empty() }
}

pub open spec fn join_builds(a: BuildM, b: BuildM) -> BuildM {
    BuildM { modules: a.modules + b.modules, writes: a.writes + b.writes, errs: a.errs + b.errs }
}

/// Runs `a`, then `b` unless `a` stopped.
pub open spec fn both(a: Result<BuildM, Seq<char>>, b: Result<BuildM, Seq<char>>) -> Result<BuildM, Seq<char>> {
    match a {
        Err(m) => Err(m),
        Ok(x) => match b {
            Err(m) => Err(m),
            Ok(y) => Ok(join_builds(x, y)),
        },
    }
}

pub open spec fn error_only(e: ErrM) -> BuildM {
    BuildM { modules: Seq::empty(), writes: Seq::empty(), errs: seq![e] }
}

/// A file of the inventory, rendered as a module `<stem>.<ext>`; a file that
/// cannot be read or parsed is an error (`missing` is the read error of a
/// file that does not exist).
pub open spec fn entry_build(f: FolderM, stem: Seq<char>, out: Seq<char>, ext: Seq<char>, missing: Seq<char>) -> Result<BuildM, Seq<char>> {
    let path = join_path(f.path, stem + ".bu"@);
    match find_file(f.files, stem + ".bu"@) {
        None => Ok(error_only(whole(path, "Could not read: "@ + missing))),
        Some(b) => match b.text {
            Err(io) => Ok(error_only(whole(path, "Could not read: "@ + io))),
            Ok(t) => match source_file(t) {
                Outcome::Done(bs, _) => Ok(BuildM {
                    modules: seq![stem],
                    writes: seq![(join_path(out, stem + "."@ + ext), source_text(bs))],
                    errs: Seq::empty(),
                }),
                Outcome::Fail(p, m) => Ok(error_only(whole(path, "Parse error: "@ + pest_error_text(t, p as nat, m)))),
                Outcome::Abort(m) => Err(m),
            },
        },
    }
}

pub open spec fn entries_build(f: FolderM, es: Seq<EntryM>, out: Seq<char>, ext: Seq<char>, missing: Seq<char>) -> Result<BuildM, Seq<char>>
    decreases es.len(),
{
    if es.len() == 0 {
        Ok(nothing())
    } else {
        both(entries_build(f, es.drop_last(), out, ext, missing), entry_build(f, es.last().file, out, ext, missing))
    }
}

/// `main.bu`, rendered as `main.rs`.
pub open spec fn main_build(main: Option<BuTextM>, out: Seq<char>, crate_name: Seq<char>) -> Result<BuildM, Seq<char>> {
    match main {
        None => Ok(nothing()),
        Some(b) => match b.text {
            Err(io) => Ok(error_only(whole(b.path, "Could not read: "@ + io))),
            Ok(t) => match source_file(t) {
                Outcome::Done(bs, _) => Ok(BuildM {
                    modules: Seq::empty(),
                    writes: seq![(join_path(out, "main.rs"@), main_text(bs, crate_name))],
                    errs: Seq::empty(),
                }),
                Outcome::Fail(p, m) => Ok(error_only(whole(b.path, "Parse error: "@ + pest_error_text(t, p as nat, m)))),
                Outcome::Abort(m) => Err(m),
            },
        },
    }
}

/// A folder rendered under `out`: its sub-folders (each a module with its
/// `mod.rs`), then its files in inventory order, then its `main.bu`. A war
/// folder has no files and a skirmish folder neither sub-folders nor
/// `main.bu`; a folder without a readable inventory renders nothing.
pub open spec fn folder_build(f: FolderM, out: Seq<char>, ext: Seq<char>, crate_name: Seq<char>, missing: Seq<char>) -> Result<BuildM, Seq<char>>
    decreases f, 1nat,
{
    match inventory_of(f) {
        LoadedM::Found(inv) => both(
            if inv.rank != Rank::Skirmish { children_build(f.subdirs, out, ext, crate_name, missing) } else { Ok(nothing()) },
            both(
                if inv.rank != Rank::War { entries_build(f, inv.entries, out, ext, missing) } else { Ok(nothing()) },
                if inv.rank != Rank::Skirmish { main_build(find_file(f.files, "main.bu"@), out, crate_name) } else { Ok(nothing()) },
            ),
        ),
        LoadedM::Failed(_) => Ok(nothing()),
        LoadedM::Aborted(m) => Err(m),
    }
}

/// A sub-folder as a module of its parent: its own build under
/// `<out>/<name>`, then its `mod.rs`.
pub open spec fn child_build(c: FolderM, out: Seq<char>, ext: Seq<char>, crate_name: Seq<char>, missing: Seq<char>) -> Result<BuildM, Seq<char>>
    decreases c, 2nat,
{
    let child_out = join_path(out, c.name);
    match folder_build(c, child_out, ext, crate_name, missing) {
        Err(m) => Err(m),
        Ok(r) => Ok(BuildM {
            modules: seq![c.name],
            writes: r.writes.push((join_path(child_out, "mod.rs"@), module_list_text(r.modules))),
            errs: r.errs,
        }),
    }
}

pub open spec fn children_build(s: Seq<FolderM>, out: Seq<char>, ext: Seq<char>, crate_name: Seq<char>, missing: Seq<char>) -> Result<BuildM, Seq<char>>
    decreases s, 0nat,
{
    if s.len() == 0 {
        Ok(nothing())
    } else {
        both(children_build(s.drop_last(), out, ext, crate_name, missing), child_build(s.last(), out, ext, crate_name, missing))
    }
}

/// Some folder of the tree has a `main.bu`.
pub open spec fn tree_has_main_m(f: FolderM) -> bool
    decreases f, 1nat,
{
    find_file(f.files, "main.bu"@) is Some || forest_has_main(f.subdirs)
}

pub open spec fn forest_has_main(s: Seq<FolderM>) -> bool
    decreases s, 0nat,
{
    s.len() > 0 && (forest_has_main(s.drop_last()) || tree_has_main_m(s.last()))
}

/// A whole build into `out_dir`: the tree under `src/`, then `lib.rs`, then
/// `Cargo.toml` (with a binary target when some folder has a `main.bu`).
pub open spec fn build_of(root: FolderM, out_dir: Seq<char>, crate_name: Seq<char>, ext: Seq<char>, missing: Seq<char>) -> Result<BuildM, Seq<char>> {
    let src = join_path(out_dir, "src"@);
    match folder_build(root, src, ext, crate_name, missing) {
        Err(m) => Err(m),
        Ok(r) => Ok(BuildM {
            modules: r.modules,
            writes: r.writes + seq![
                (join_path(src, "lib.rs"@), "#![allow(unused_imports)]\n\n"@ + module_list_text(r.modules)),
                (join_path(out_dir, "Cargo.toml"@), if tree_has_main_m(root) {
                    cargo_with_main_text(crate_name)
                } else {
                    cargo_text(crate_name)
                }),
            ],
            errs: r.errs,
        }),
    }
}


// ── Lemmas ───────────────────────────────────────────────────────────────────

pub proof fn lemma_join_assoc(a: BuildM, b: BuildM, c: BuildM)
    ensures
        join_builds(join_builds(a, b), c) == join_builds(a, join_builds(b, c)),
{
    assert(join_builds(join_builds(a, b), c).modules =~= join_builds(a, join_builds(b, c)).modules);
    assert(join_builds(join_builds(a, b), c).writes =~= join_builds(a, join_builds(b, c)).writes);
    assert(join_builds(join_builds(a, b), c).errs =~= join_builds(a, join_builds(b, c)).errs);
}

pub proof fn lemma_join_nothing(a: BuildM)
    ensures
        join_builds(a, nothing()) == a,
        join_builds(nothing(), a) == a,
{
    assert(join_builds(a, nothing()).modules =~= a.modules);
    assert(join_builds(a, nothing()).writes =~= a.writes);
    assert(join_builds(a, nothing()).errs =~= a.errs);
    assert(join_builds(nothing(), a).modules =~= a.modules);
    assert(join_builds(nothing(), a).writes =~= a.writes);
    assert(join_builds(nothing(), a).errs =~= a.errs);
}

pub proof fn lemma_entries_build_stop(f: FolderM, es: Seq<EntryM>, k: int, out: Seq<char>, ext: Seq<char>, missing: Seq<char>)
    requires
        0 <= k <= es.len(),
        entries_build(f, es.take(k), out, ext, missing) is Err,
    ensures
        entries_build(f, es, out, ext, missing) == entries_build(f, es.take(k), out, ext, missing),
    decreases es.len(),
{
    if k < es.len() {
        assert(es.drop_last().take(k) =~= es.take(k));
        lemma_entries_build_stop(f, es.drop_last(), k, out, ext, missing);
    } else {
        assert(es.take(k) =~= es);
    }
}

pub proof fn lemma_children_build_stop(s: Seq<FolderM>, k: int, out: Seq<char>, ext: Seq<char>, crate_name: Seq<char>, missing: Seq<char>)
    requires
        0 <= k <= s.len(),
        children_build(s.take(k), out, ext, crate_name, missing) is Err,
    ensures
        children_build(s, out, ext, crate_name, missing) == children_build(s.take(k), out, ext, crate_name, missing),
    decreases s.len(),
{
    if k < s.len() {
        assert(s.drop_last().take(k) =~= s.take(k));
        lemma_children_build_stop(s.drop_last(), k, out, ext, crate_name, missing);
    } else {
        assert(s.take(k) =~= s);
    }
}

// ── Accumulated output ───────────────────────────────────────────────────────

pub open spec fn writes_m(v: Seq<(String, String)>) -> Seq<(Seq<char>, Seq<char>)> {
    v.map_values(|w: (String, String)| (w.0@, w.1@))
}

/// The output gathered so far.
pub struct Gathered {
    pub modules: Vec<String>,
    pub writes: Vec<(String, String)>,
    pub errors: Vec<ValidationError>,
}

pub open spec fn gathered_m(g: Gathered) -> BuildM {
    BuildM { modules: strs_m(g.modules@), writes: writes_m(g.writes@), errs: errs_m(g.errors@) }
}

/// What a step of the build did to the output gathered so far.
pub open spec fn stepped(before: Gathered, after: Gathered, r: Result<BuildM, Seq<char>>, stop: Option<String>) -> bool {
    match r {
        Ok(x) => stop is None && gathered_m(after) == join_builds(gathered_m(before), x),
        Err(m) => stop matches Some(t) && t@ == m,
    }
}

fn gather_write(g: &mut Gathered, path: String, content: String)
    ensures
        gathered_m(*final(g)) == join_builds(gathered_m(*old(g)), BuildM {
            modules: Seq::empty(),
            writes: seq![(path@, content@)],
            errs: Seq::empty(),
        }),
{
    let ghost before = gathered_m(*g);
    let ghost w = g.writes@;
    g.writes.push((path, content));
    assert(writes_m(g.writes@) =~= writes_m(w).push((path@, content@)));
    assert(gathered_m(*g).modules =~= before.modules + Seq::<Seq<char>>::empty());
    assert(gathered_m(*g).errs =~= before.errs + Seq::<ErrM>::empty());
    assert(gathered_m(*g).writes =~= before.writes + seq![(path@, content@)]);
}

fn gather_error(g: &mut Gathered, file: &str, message: String)
    ensures
        gathered_m(*final(g)) == join_builds(gathered_m(*old(g)), error_only(whole(file@, message@))),
{
    let ghost before = gathered_m(*g);
    let ghost e = g.errors@;
    g.errors.push(ValidationError { file: owned(file), line: 0, col: 0, message });
    assert(errs_m(g.errors@) =~= errs_m(e).push(whole(file@, message@)));
    assert(gathered_m(*g).modules =~= before.modules + Seq::<Seq<char>>::empty());
    assert(gathered_m(*g).writes =~= before.writes + Seq::<(Seq<char>, Seq<char>)>::empty());
    assert(gathered_m(*g).errs =~= before.errs + seq![whole(file@, message@)]);
}

fn gather_module(g: &mut Gathered, name: String)
    ensures
        gathered_m(*final(g)) == join_builds(gathered_m(*old(g)), BuildM {
            modules: seq![name@],
            writes: Seq::empty(),
            errs: Seq::empty(),
        }),
{
    let ghost before = gathered_m(*g);
    let ghost m = g.modules@;
    g.modules.push(name);
    assert(strs_m(g.modules@) =~= strs_m(m).push(name@));
    assert(gathered_m(*g).modules =~= before.modules + seq![name@]);
    assert(gathered_m(*g).writes =~= before.writes + Seq::<(Seq<char>, Seq<char>)>::empty());
    assert(gathered_m(*g).errs =~= before.errs + Seq::<ErrM>::empty());
}


// ── Building ─────────────────────────────────────────────────────────────────

/// Renders the file `<stem>.bu` of `dir` into `out`.
fn build_entry(dir: &Folder, stem: &str, out: &str, ext: &str, missing: &str, g: &mut Gathered) -> (stop: Option<String>)
    requires
        texts_fit(butexts_m(dir.files@)),
    ensures
        stepped(*old(g), *final(g), entry_build(folder_m(*dir), stem@, out@, ext@, missing@), stop),
{
    proof { reveal_strlit(".bu"); }
    let name = concat(stem, ".bu");
    let path = join(dir.path.as_str(), name.as_str());
    proof { lemma_find_index(butexts_m(dir.files@), name@); }
    match find_named(&dir.files, name.as_str()) {
        None => {
            gather_error(g, path.as_str(), concat("Could not read: ", missing));
            None
        },
        Some(b) => match &b.text {
            Err(io) => {
                gather_error(g, path.as_str(), concat("Could not read: ", io.as_str()));
                None
            },
            Ok(t) => {
                proof {
                    let k = find_index(butexts_m(dir.files@), name@).unwrap();
                    assert(butexts_m(dir.files@)[k] == butext_m(*b));
                    assert(text_fits(butexts_m(dir.files@)[k].text));
                }
                match parse_file(t.as_str(), false) {
                    Ok(BuFile::Source(sf)) => {
                        let ghost before = gathered_m(*g);
                        let mut file = owned(stem);
                        file.append(".");
                        file.append(ext);
                        gather_write(g, join(out, file.as_str()), emit_source(&sf));
                        let ghost mid = gathered_m(*g);
                        gather_module(g, owned(stem));
                        proof {
                            lemma_join_assoc(before, BuildM { modules: Seq::empty(), writes: seq![(join_path(out@, stem@ + "."@ + ext@), source_text(crate::model::source_m(sf)))], errs: Seq::empty() },
                                BuildM { modules: seq![stem@], writes: Seq::empty(), errs: Seq::empty() });
                            let x = BuildM {
                                modules: seq![stem@],
                                writes: seq![(join_path(out@, stem@ + "."@ + ext@), source_text(crate::model::source_m(sf)))],
                                errs: Seq::empty(),
                            };
                            assert(join_builds(BuildM { modules: Seq::empty(), writes: seq![(join_path(out@, stem@ + "."@ + ext@), source_text(crate::model::source_m(sf)))], errs: Seq::empty() },
                                BuildM { modules: seq![stem@], writes: Seq::empty(), errs: Seq::empty() }).modules =~= x.modules);
                            assert(join_builds(BuildM { modules: Seq::empty(), writes: seq![(join_path(out@, stem@ + "."@ + ext@), source_text(crate::model::source_m(sf)))], errs: Seq::empty() },
                                BuildM { modules: seq![stem@], writes: Seq::empty(), errs: Seq::empty() }).writes =~= x.writes);
                            assert(join_builds(BuildM { modules: Seq::empty(), writes: seq![(join_path(out@, stem@ + "."@ + ext@), source_text(crate::model::source_m(sf)))], errs: Seq::empty() },
                                BuildM { modules: seq![stem@], writes: Seq::empty(), errs: Seq::empty() }).errs =~= x.errs);
                        }
                        None
                    },
                    Ok(BuFile::Inventory(_)) => None,
                    Err(ParseError::Syntax(e)) => {
                        gather_error(g, path.as_str(), concat("Parse error: ", e.as_str()));
                        None
                    },
                    Err(ParseError::Aborted(m)) => Some(m),
                }
            },
        },
    }
}

/// Renders `main.bu`, if any, as `<out>/main.rs`.
fn build_main(main: Option<&BuText>, out: &str, crate_name: &str, g: &mut Gathered) -> (stop: Option<String>)
    requires
        main matches Some(b) ==> text_fits(butext_m(*b).text),
    ensures
        stepped(*old(g), *final(g), main_build(match main {
            Some(b) => Some(butext_m(*b)),
            None => None,
        }, out@, crate_name@), stop),
{
    match main {
        None => {
            proof { lemma_join_nothing(gathered_m(*g)); }
            None
        },
        Some(b) => match &b.text {
            Err(io) => {
                gather_error(g, b.path.as_str(), concat("Could not read: ", io.as_str()));
                None
            },
            Ok(t) => match parse_file(t.as_str(), false) {
                Ok(BuFile::Source(sf)) => {
                    gather_write(g, join(out, "main.rs"), emit_main(&sf, crate_name));
                    None
                },
                Ok(BuFile::Inventory(_)) => None,
                Err(ParseError::Syntax(e)) => {
                    gather_error(g, b.path.as_str(), concat("Parse error: ", e.as_str()));
                    None
                },
                Err(ParseError::Aborted(m)) => Some(m),
            },
        },
    }
}


/// Renders every file the inventory lists, in order.
fn build_entries(dir: &Folder, inv: &crate::ast::InventoryFile, out: &str, ext: &str, missing: &str, g: &mut Gathered) -> (stop: Option<String>)
    requires
        texts_fit(butexts_m(dir.files@)),
    ensures
        stepped(*old(g), *final(g), entries_build(folder_m(*dir), inventory_m(*inv).entries, out@, ext@, missing@), stop),
{
    let ghost f = folder_m(*dir);
    let ghost es = inventory_m(*inv).entries;
    let ghost start = gathered_m(*g);
    let ghost mut acc = nothing();
    proof { lemma_join_nothing(start); }
    assert(es.take(0) =~= Seq::<EntryM>::empty());
    let mut i: usize = 0;
    while i < inv.entries.len()
        invariant
            i <= inv.entries.len(),
            f == folder_m(*dir),
            es == inventory_m(*inv).entries,
            texts_fit(butexts_m(dir.files@)),
            entries_build(f, es.take(i as int), out@, ext@, missing@) == Ok::<BuildM, Seq<char>>(acc),
            gathered_m(*g) == join_builds(start, acc),
        decreases inv.entries.len() - i,
    {
        assert(es.take(i + 1).drop_last() =~= es.take(i as int));
        assert(es.take(i + 1).last() == entry_m(inv.entries@[i as int]));
        let ghost before = gathered_m(*g);
        let ghost res = entry_build(f, inv.entries@[i as int].file@, out@, ext@, missing@);
        match build_entry(dir, inv.entries[i].file.as_str(), out, ext, missing, g) {
            Some(m) => {
                proof { lemma_entries_build_stop(f, es, i + 1, out@, ext@, missing@); }
                return Some(m);
            },
            None => {
                proof {
                    let x = match res { Ok(x) => x, Err(_) => nothing() };
                    lemma_join_assoc(start, acc, x);
                    acc = join_builds(acc, x);
                }
            },
        }
        i = i + 1;
    }
    assert(es.take(inv.entries.len() as int) =~= es);
    None
}

/// Renders a sub-folder as a module of its parent.
fn build_child(c: &Folder, out: &str, ext: &str, crate_name: &str, missing: &str, g: &mut Gathered) -> (stop: Option<String>)
    requires
        tree_fits(folder_m(*c)),
    ensures
        stepped(*old(g), *final(g), child_build(folder_m(*c), out@, ext@, crate_name@, missing@), stop),
    decreases c, 2nat,
{
    let child_out = join(out, c.name.as_str());
    let mut inner = Gathered { modules: Vec::new(), writes: Vec::new(), errors: Vec::new() };
    assert(gathered_m(inner).modules =~= Seq::<Seq<char>>::empty());
    assert(gathered_m(inner).writes =~= Seq::<(Seq<char>, Seq<char>)>::empty());
    assert(gathered_m(inner).errs =~= Seq::<ErrM>::empty());
    assert(gathered_m(inner) =~= nothing());
    proof { lemma_join_nothing(nothing()); }
    match build_folder(c, child_out.as_str(), ext, crate_name, missing, &mut inner) {
        Some(m) => Some(m),
        None => {
            let ghost r = gathered_m(inner);
            let ghost before = gathered_m(*g);
            let mod_rs = emit_mod_rs(inner.modules.as_slice());
            let ghost w = (join_path(child_out@, "mod.rs"@), mod_rs@);
            gather_write(&mut inner, join(child_out.as_str(), "mod.rs"), mod_rs);
            gather_outputs(g, inner);
            gather_module(g, owned(c.name.as_str()));
            assert(gathered_m(*g) =~= join_builds(before, BuildM { modules: seq![c.name@], writes: r.writes.push(w), errs: r.errs }));
            None
        },
    }
}

/// Adds the files and errors of `inner` (not its modules) to `g`.
fn gather_outputs(g: &mut Gathered, inner: Gathered)
    ensures
        gathered_m(*final(g)) == join_builds(gathered_m(*old(g)), BuildM {
            modules: Seq::empty(),
            writes: gathered_m(inner).writes,
            errs: gathered_m(inner).errs,
        }),
{
    let ghost before = gathered_m(*g);
    let ghost w = inner.writes@;
    let ghost e = inner.errors@;
    let ghost gw = g.writes@;
    let ghost ge = g.errors@;
    let Gathered { modules: _, writes, errors } = inner;
    let mut writes = writes;
    let mut errors = errors;
    g.writes.append(&mut writes);
    g.errors.append(&mut errors);
    assert(writes_m(g.writes@) =~= writes_m(gw) + writes_m(w));
    assert(errs_m(g.errors@) =~= errs_m(ge) + errs_m(e));
    assert(gathered_m(*g) =~= join_builds(before, BuildM { modules: Seq::empty(), writes: writes_m(w), errs: errs_m(e) }));
}

/// Renders a folder into `out`, adding what it produces to `g`.
#[verifier::loop_isolation(false)]
fn build_folder(dir: &Folder, out: &str, ext: &str, crate_name: &str, missing: &str, g: &mut Gathered) -> (stop: Option<String>)
    requires
        tree_fits(folder_m(*dir)),
    ensures
        stepped(*old(g), *final(g), folder_build(folder_m(*dir), out@, ext@, crate_name@, missing@), stop),
    decreases dir, 1nat,
{
    let ghost f = folder_m(*dir);
    let ghost start = gathered_m(*g);
    let inv = match read_inventory(dir) {
        Loaded::Found(i) => i,
        Loaded::Failed(_) => {
            proof { lemma_join_nothing(start); }
            return None;
        },
        Loaded::Aborted(m) => return Some(m),
    };
    proof {
        lemma_folders_m(dir.subdirs@);
        lemma_trees_fit(f.subdirs);
        lemma_join_nothing(start);
    }
    let ghost s = f.subdirs;
    // sub-folders
    let ghost mut acc1 = nothing();
    if inv.rank != Rank::Skirmish {
        assert(s.take(0) =~= Seq::<FolderM>::empty());
        let mut i: usize = 0;
        while i < dir.subdirs.len()
            invariant
                i <= dir.subdirs.len(),
                children_build(s.take(i as int), out@, ext@, crate_name@, missing@) == Ok::<BuildM, Seq<char>>(acc1),
                gathered_m(*g) == join_builds(start, acc1),
            decreases dir.subdirs.len() - i,
        {
            assert(s.take(i + 1).drop_last() =~= s.take(i as int));
            assert(s.take(i + 1).last() == s[i as int]);
            assert(tree_fits(s[i as int]));
            let ghost res = child_build(s[i as int], out@, ext@, crate_name@, missing@);
            match build_child(&dir.subdirs[i], out, ext, crate_name, missing, g) {
                Some(m) => {
                    proof { lemma_children_build_stop(s, i + 1, out@, ext@, crate_name@, missing@); }
                    return Some(m);
                },
                None => {
                    proof {
                        let x = match res { Ok(x) => x, Err(_) => nothing() };
                        lemma_join_assoc(start, acc1, x);
                        acc1 = join_builds(acc1, x);
                    }
                },
            }
            i = i + 1;
        }
        assert(s.take(dir.subdirs.len() as int) =~= s);
    }
    let ghost g1 = gathered_m(*g);
    // files
    let ghost res2 = if inv.rank != Rank::War {
        entries_build(f, inventory_m(inv).entries, out@, ext@, missing@)
    } else {
        Ok::<BuildM, Seq<char>>(nothing())
    };
    if inv.rank != Rank::War {
        match build_entries(dir, &inv, out, ext, missing, g) {
            Some(m) => return Some(m),
            None => {},
        }
    } else {
        proof { lemma_join_nothing(g1); }
    }
    let ghost g2 = gathered_m(*g);
    // main.bu
    let ghost res3 = if inv.rank != Rank::Skirmish {
        main_build(find_file(f.files, "main.bu"@), out@, crate_name@)
    } else {
        Ok::<BuildM, Seq<char>>(nothing())
    };
    if inv.rank != Rank::Skirmish {
        let main = main_bu_path(dir);
        proof {
            lemma_find_index(f.files, "main.bu"@);
            if let Some(k) = find_index(f.files, "main.bu"@) {
                assert(text_fits(f.files[k].text));
            }
        }
        match build_main(main, out, crate_name, g) {
            Some(m) => return Some(m),
            None => {},
        }
    } else {
        proof { lemma_join_nothing(g2); }
    }
    proof {
        let x2 = match res2 { Ok(x) => x, Err(_) => nothing() };
        let x3 = match res3 { Ok(x) => x, Err(_) => nothing() };
        lemma_join_assoc(start, acc1, x2);
        lemma_join_assoc(start, join_builds(acc1, x2), x3);
        lemma_join_assoc(acc1, x2, x3);
    }
    None
}

/// What a build plans: the files to write and the errors found.
pub struct BuildPlan {
    pub writes: Vec<(String, String)>,
    pub errors: Vec<ValidationError>,
}

/// Whether some folder of the tree has a `main.bu`.
#[verifier::loop_isolation(false)]
fn tree_has_main(dir: &Folder) -> (r: bool)
    ensures
        r == tree_has_main_m(folder_m(*dir)),
    decreases dir,
{
    proof { lemma_folders_m(dir.subdirs@); }
    if main_bu_path(dir).is_some() {
        return true;
    }
    let ghost s = folder_m(*dir).subdirs;
    let mut i: usize = 0;
    assert(s.take(0) =~= Seq::<FolderM>::empty());
    while i < dir.subdirs.len()
        invariant
            i <= dir.subdirs.len(),
            !forest_has_main(s.take(i as int)),
        decreases dir.subdirs.len() - i,
    {
        assert(s.take(i + 1).drop_last() =~= s.take(i as int));
        assert(s.take(i + 1).last() == s[i as int]);
        if tree_has_main(&dir.subdirs[i]) {
            proof { lemma_forest_has_main(s, i + 1); }
            return true;
        }
        i = i + 1;
    }
    assert(s.take(dir.subdirs.len() as int) =~= s);
    false
}

pub proof fn lemma_forest_has_main(s: Seq<FolderM>, k: int)
    requires
        0 <= k <= s.len(),
        forest_has_main(s.take(k)),
    ensures
        forest_has_main(s),
    decreases s.len(),
{
    if k < s.len() {
        assert(s.drop_last().take(k) =~= s.take(k));
        lemma_forest_has_main(s.drop_last(), k);
    } else {
        assert(s.take(k) =~= s);
    }
}

pub open spec fn plan_m(p: BuildPlan) -> (Seq<(Seq<char>, Seq<char>)>, Seq<ErrM>) {
    (writes_m(p.writes@), errs_m(p.errors@))
}

/// Builds a project tree into `out_dir` as the crate `crate_name` for
/// `backend`: the files to write and the errors met, or the message the tool
/// stops with. `missing` is the error text of reading a file that does not
/// exist.
#[verifier::spinoff_prover]
#[verifier::rlimit(40)]
pub fn build(root: &Folder, out_dir: &str, crate_name: &str, backend: &Backend, missing: &str) -> (r: Result<BuildPlan, String>)
    requires
        tree_fits(folder_m(*root)),
    ensures
        match build_of(folder_m(*root), out_dir@, crate_name@, backend_ext(*backend), missing@) {
            Ok(b) => r matches Ok(p) && plan_m(p) == (b.writes, b.errs),
            Err(m) => r matches Err(t) && t@ == m,
        },
{
    let src_out = join(out_dir, "src");
    let has_main = tree_has_main(root);
    let mut g = Gathered { modules: Vec::new(), writes: Vec::new(), errors: Vec::new() };
    assert(gathered_m(g).modules =~= Seq::<Seq<char>>::empty());
    assert(gathered_m(g).writes =~= Seq::<(Seq<char>, Seq<char>)>::empty());
    assert(gathered_m(g).errs =~= Seq::<ErrM>::empty());
    assert(gathered_m(g) =~= nothing());
    proof { lemma_join_nothing(nothing()); }
    match build_folder(root, src_out.as_str(), backend.ext(), crate_name, missing, &mut g) {
        Some(m) => return Err(m),
        None => {},
    }
    let lib = emit_lib_rs(g.modules.as_slice());
    let cargo = if has_main { emit_cargo_toml_with_main(crate_name) } else { emit_cargo_toml(crate_name) };
    let ghost w0 = writes_m(g.writes@);
    let mut writes = g.writes;
    writes.push((join(src_out.as_str(), "lib.rs"), lib));
    writes.push((join(out_dir, "Cargo.toml"), cargo));
    let plan = BuildPlan { writes, errors: g.errors };
    assert(writes_m(plan.writes@) =~= w0 + seq![
        (join_path(src_out@, "lib.rs"@), "#![allow(unused_imports)]\n\n"@ + module_list_text(strs_m(g.modules@))),
        (join_path(out_dir@, "Cargo.toml"@), if tree_has_main_m(folder_m(*root)) {
            cargo_with_main_text(crate_name@)
        } else {
            cargo_text(crate_name@)
        }),
    ]);
    Ok(plan)
}


proof fn lemma_forest_has_main_any(s: Seq<FolderM>)
    ensures
        forest_has_main(s) <==> exists|i: int| 0 <= i < s.len() && tree_has_main_m(#[trigger] s[i]),
    decreases s.len(),
{
    if s.len() > 0 {
        lemma_forest_has_main_any(s.drop_last());
        if exists|i: int| 0 <= i < s.drop_last().len() && tree_has_main_m(#[trigger] s.drop_last()[i]) {
            let i = choose|i: int| 0 <= i < s.drop_last().len() && tree_has_main_m(#[trigger] s.drop_last()[i]);
            assert(s[i] == s.drop_last()[i]);
        }
        if exists|i: int| 0 <= i < s.len() && tree_has_main_m(#[trigger] s[i]) {
            let i = choose|i: int| 0 <= i < s.len() && tree_has_main_m(#[trigger] s[i]);
            if i < s.len() - 1 {
                assert(s.drop_last()[i] == s[i]);
            }
        }
    }
}

/// A `main.bu` anywhere in the tree gives the crate a binary target: the tree
/// has an entry point exactly when its root folder holds `main.bu` or one of
/// its sub-folders' trees has one.
pub proof fn law_main_anywhere(f: FolderM)
    ensures
        tree_has_main_m(f) <==> (find_file(f.files, "main.bu"@) is Some
            || exists|i: int| 0 <= i < f.subdirs.len() && tree_has_main_m(#[trigger] f.subdirs[i])),
        forall|i: int| 0 <= i < f.subdirs.len() && find_file((#[trigger] f.subdirs[i]).files, "main.bu"@) is Some
            ==> tree_has_main_m(f),
{
    lemma_forest_has_main_any(f.subdirs);
    assert forall|i: int| 0 <= i < f.subdirs.len() && find_file((#[trigger] f.subdirs[i]).files, "main.bu"@) is Some
        implies tree_has_main_m(f) by {
        assert(tree_has_main_m(f.subdirs[i]));
    }
}

/// The manifest of a build has a binary target exactly when some folder of
/// the tree has a `main.bu`.
pub proof fn law_manifest_follows_main(root: FolderM, out_dir: Seq<char>, crate_name: Seq<char>, ext: Seq<char>, missing: Seq<char>)
    requires
        build_of(root, out_dir, crate_name, ext, missing) is Ok,
    ensures
        build_of(root, out_dir, crate_name, ext, missing)->Ok_0.writes.last() == (
            join_path(out_dir, "Cargo.toml"@),
            if tree_has_main_m(root) { cargo_with_main_text(crate_name) } else { cargo_text(crate_name) },
        ),
{
}


proof fn lemma_entries_build_parts(f: FolderM, es: Seq<EntryM>, out: Seq<char>, ext: Seq<char>, missing: Seq<char>, k: int)
    requires
        0 <= k < es.len(),
        entries_build(f, es, out, ext, missing) is Ok,
    ensures
        entry_build(f, es[k].file, out, ext, missing) is Ok,
        forall|w| entry_build(f, es[k].file, out, ext, missing)->Ok_0.writes.contains(w)
            ==> #[trigger] entries_build(f, es, out, ext, missing)->Ok_0.writes.contains(w),
        forall|m| entry_build(f, es[k].file, out, ext, missing)->Ok_0.modules.contains(m)
            ==> #[trigger] entries_build(f, es, out, ext, missing)->Ok_0.modules.contains(m),
    decreases es.len(),
{
    let pre = es.drop_last();
    let a = entries_build(f, pre, out, ext, missing);
    let b = entry_build(f, es.last().file, out, ext, missing);
    assert(entries_build(f, es, out, ext, missing) == both(a, b));
    let all = entries_build(f, es, out, ext, missing)->Ok_0;
    if k == es.len() - 1 {
        assert forall|w| b->Ok_0.writes.contains(w) implies #[trigger] all.writes.contains(w) by {
            let i = choose|i: int| 0 <= i < b->Ok_0.writes.len() && b->Ok_0.writes[i] == w;
            assert(all.writes[a->Ok_0.writes.len() + i] == w);
        }
        assert forall|m| b->Ok_0.modules.contains(m) implies #[trigger] all.modules.contains(m) by {
            let i = choose|i: int| 0 <= i < b->Ok_0.modules.len() && b->Ok_0.modules[i] == m;
            assert(all.modules[a->Ok_0.modules.len() + i] == m);
        }
    } else {
        assert(pre[k] == es[k]);
        lemma_entries_build_parts(f, pre, out, ext, missing, k);
        let x = entry_build(f, es[k].file, out, ext, missing)->Ok_0;
        assert forall|w| x.writes.contains(w) implies #[trigger] all.writes.contains(w) by {
            assert(a->Ok_0.writes.contains(w));
            let i = choose|i: int| 0 <= i < a->Ok_0.writes.len() && a->Ok_0.writes[i] == w;
            assert(all.writes[i] == w);
        }
        assert forall|m| x.modules.contains(m) implies #[trigger] all.modules.contains(m) by {
            assert(a->Ok_0.modules.contains(m));
            let i = choose|i: int| 0 <= i < a->Ok_0.modules.len() && a->Ok_0.modules[i] == m;
            assert(all.modules[i] == m);
        }
    }
}

/// One module per source file: every file that a folder's inventory lists,
/// and that exists and parses, is written as `<stem>.<ext>` in the output
/// folder with the code of its functions, and declared as a module.
pub proof fn law_one_module_per_source(f: FolderM, es: Seq<EntryM>, out: Seq<char>, ext: Seq<char>, missing: Seq<char>, k: int, bs: Seq<BulletM>, rest: int)
    requires
        0 <= k < es.len(),
        entries_build(f, es, out, ext, missing) is Ok,
        find_file(f.files, es[k].file + ".bu"@) matches Some(b) && b.text matches Ok(t)
            && source_file(t) == Outcome::<Seq<BulletM>>::Done(bs, rest),
    ensures
        entries_build(f, es, out, ext, missing)->Ok_0.writes.contains((join_path(out, es[k].file + "."@ + ext), source_text(bs))),
        entries_build(f, es, out, ext, missing)->Ok_0.modules.contains(es[k].file),
{
    lemma_entries_build_parts(f, es, out, ext, missing, k);
    let x = entry_build(f, es[k].file, out, ext, missing)->Ok_0;
    assert(x.writes[0] == (join_path(out, es[k].file + "."@ + ext), source_text(bs)));
    assert(x.modules[0] == es[k].file);
}

} // verus!
