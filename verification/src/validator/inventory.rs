//! Inventory completeness: every source file of a folder is listed in its
//! inventory, every listed file exists, and each listing names exactly the
//! functions its file declares.

use vstd::prelude::*;
use crate::ast::{BuFile, InventoryEntry, InventoryFile};
use crate::grammar::{Outcome, source_file};
use crate::model::{BulletM, EntryM, InventoryM, entries_m, entry_m, inventory_m, source_m, strs_m};
use crate::parser::{ParseError, parse_file};
use crate::project::{
    BuText, BuTextM, Folder, butext_m, butexts_m, file_stem, find_file, find_named, join,
    join_path, lemma_find_index, refs_m, stem_of, text_fits, texts_fit,
};
use crate::text::{concat, contains_str, copy_strs, dedup, dedup_strs, law_dedup, owned};
use crate::validator::{ErrM, ValidationError, errs_m, extend_errs, push_err, whole, ferr};

verus! {

// ── The inventory as a map ───────────────────────────────────────────────────

/// The map from file to listed functions that an inventory's entries give
/// (a later entry for the same file replaces an earlier one).
pub open spec fn inv_map(entries: Seq<EntryM>) -> Map<Seq<char>, Seq<Seq<char>>>
    decreases entries.len(),
{
    if entries.len() == 0 {
        Map::empty()
    } else {
        inv_map(entries.drop_last()).insert(entries.last().file, entries.last().functions)
    }
}

/// A list of (file, functions) pairs that represents `m` exactly: one pair per
/// key, each with the key's value.
pub open spec fn represents(p: Seq<(String, Vec<String>)>, m: Map<Seq<char>, Seq<Seq<char>>>) -> bool {
    &&& forall|i: int, j: int| 0 <= i < j < p.len() ==> (#[trigger] p[i]).0@ != (#[trigger] p[j]).0@
    &&& forall|i: int| 0 <= i < p.len() ==> m.contains_key((#[trigger] p[i]).0@) && m[p[i].0@] == strs_m(p[i].1@)
    &&& forall|k: Seq<char>| #[trigger] m.contains_key(k) ==> exists|i: int| 0 <= i < p.len() && (#[trigger] p[i]).0@ == k
}

/// Where the pair for key `k` stands.
fn key_index(r: &Vec<(String, Vec<String>)>, k: &str) -> (idx: Option<usize>)
    ensures
        match idx {
            Some(j) => j < r.len() && r@[j as int].0@ == k@,
            None => forall|x: int| 0 <= x < r.len() ==> (#[trigger] r@[x]).0@ != k@,
        },
{
    let mut j: usize = 0;
    while j < r.len()
        invariant
            j <= r.len(),
            forall|x: int| 0 <= x < j ==> (#[trigger] r@[x]).0@ != k@,
        decreases r.len() - j,
    {
        if crate::text::str_eq(r[j].0.as_str(), k) {
            return Some(j);
        }
        j = j + 1;
    }
    None
}

/// The file-to-functions map of an inventory, one pair per listed file.
pub fn build_inv_map(inv: &InventoryFile) -> (r: Vec<(String, Vec<String>)>)
    ensures
        represents(r@, inv_map(inventory_m(*inv).entries)),
{
    let ghost es = inventory_m(*inv).entries;
    let mut r: Vec<(String, Vec<String>)> = Vec::new();
    let mut i: usize = 0;
    while i < inv.entries.len()
        invariant
            i <= inv.entries.len(),
            es == entries_m(inv.entries@),
            represents(r@, inv_map(es.take(i as int))),
        decreases inv.entries.len() - i,
    {
        let e = &inv.entries[i];
        assert(es.take(i + 1).drop_last() =~= es.take(i as int));
        assert(es.take(i + 1).last() == entry_m(*e));
        let ghost m0 = inv_map(es.take(i as int));
        let ghost m1 = inv_map(es.take(i + 1));
        assert(m1 == m0.insert(e.file@, strs_m(e.functions@)));
        let ghost old_r = r@;
        match key_index(&r, e.file.as_str()) {
            Some(j) => {
                r.set(j, (owned(e.file.as_str()), copy_strs(&e.functions)));
                assert forall|k: Seq<char>| #[trigger] m1.contains_key(k) implies exists|x: int|
                    0 <= x < r@.len() && (#[trigger] r@[x]).0@ == k by {
                    if k == e.file@ {
                        assert(r@[j as int].0@ == k);
                    } else {
                        let x = choose|x: int| 0 <= x < old_r.len() && (#[trigger] old_r[x]).0@ == k;
                        assert(r@[x].0@ == k);
                    }
                }
            },
            None => {
                r.push((owned(e.file.as_str()), copy_strs(&e.functions)));
                assert forall|k: Seq<char>| #[trigger] m1.contains_key(k) implies exists|x: int|
                    0 <= x < r@.len() && (#[trigger] r@[x]).0@ == k by {
                    if k == e.file@ {
                        assert(r@[old_r.len() as int].0@ == k);
                    } else {
                        let x = choose|x: int| 0 <= x < old_r.len() && (#[trigger] old_r[x]).0@ == k;
                        assert(r@[x].0@ == k);
                    }
                }
            },
        }
        i = i + 1;
    }
    assert(es.take(inv.entries.len() as int) =~= es);
    r
}

// ── Messages ─────────────────────────────────────────────────────────────────

/// The four ways a folder and its inventory can disagree.
pub enum Gap {
    /// A source file that the inventory does not list.
    FileNotListed,
    /// A listed file that does not exist.
    FileMissing,
    /// A declared function that the file's listing omits.
    FnNotListed,
    /// A listed function that the file does not declare.
    FnMissing,
}

/// The message for a gap about `name`; `file` is the stem of the file a
/// function gap concerns.
pub open spec fn gap_msg(g: Gap, name: Seq<char>, file: Seq<char>) -> Seq<char> {
    match g {
        Gap::FileNotListed => "Source file '"@ + name + ".bu' exists but is not listed in inventory. Add a line:  "@
            + name + ": fn1, fn2, ...;"@,
        Gap::FileMissing => "Inventory lists '"@ + name + "' but '"@ + name + ".bu' does not exist in this folder."@,
        Gap::FnNotListed => "Function '"@ + name + "' exists in '"@ + file + ".bu' but is not listed in inventory."@,
        Gap::FnMissing => "The function '"@ + name + "' is listed in inventory, but not found in '"@ + file
            + ".bu'."@,
    }
}

fn gap_message(g: &Gap, name: &str, file: &str) -> (r: String)
    ensures
        r@ == gap_msg(*g, name@, file@),
{
    let mut r = String::new();
    match g {
        Gap::FileNotListed => {
            r.append("Source file '");
            r.append(name);
            r.append(".bu' exists but is not listed in inventory. Add a line:  ");
            r.append(name);
            r.append(": fn1, fn2, ...;");
        },
        Gap::FileMissing => {
            r.append("Inventory lists '");
            r.append(name);
            r.append("' but '");
            r.append(name);
            r.append(".bu' does not exist in this folder.");
        },
        Gap::FnNotListed => {
            r.append("Function '");
            r.append(name);
            r.append("' exists in '");
            r.append(file);
            r.append(".bu' but is not listed in inventory.");
        },
        Gap::FnMissing => {
            r.append("The function '");
            r.append(name);
            r.append("' is listed in inventory, but not found in '");
            r.append(file);
            r.append(".bu'.");
        },
    }
    assert(r@ =~= gap_msg(*g, name@, file@));
    r
}

/// One error, at `at`, for each string of `xs` that `ys` does not hold.
pub open spec fn absent_errs(xs: Seq<Seq<char>>, ys: Seq<Seq<char>>, at: Seq<char>, g: Gap, file: Seq<char>) -> Seq<ErrM>
    decreases xs.len(),
{
    if xs.len() == 0 {
        Seq::empty()
    } else {
        absent_errs(xs.drop_last(), ys, at, g, file) + (if ys.contains(xs.last()) {
            Seq::empty()
        } else {
            seq![whole(at, gap_msg(g, xs.last(), file))]
        })
    }
}

fn push_absent(errors: &mut Vec<ValidationError>, xs: &Vec<String>, ys: &Vec<String>, at: &str, g: &Gap, file: &str)
    ensures
        errs_m(final(errors)@) == errs_m(old(errors)@) + absent_errs(strs_m(xs@), strs_m(ys@), at@, *g, file@),
{
    let ghost start = errs_m(errors@);
    let ghost s = strs_m(xs@);
    let mut i: usize = 0;
    while i < xs.len()
        invariant
            i <= xs.len(),
            s == strs_m(xs@),
            errs_m(errors@) == start + absent_errs(s.take(i as int), strs_m(ys@), at@, *g, file@),
        decreases xs.len() - i,
    {
        assert(s.take(i + 1).drop_last() =~= s.take(i as int));
        assert(s.take(i + 1).last() == xs@[i as int]@);
        let ghost before = errs_m(errors@);
        if !contains_str(ys, xs[i].as_str()) {
            push_err(errors, ferr(at, gap_message(g, xs[i].as_str(), file)));
        }
        assert(errs_m(errors@) =~= start + absent_errs(s.take(i + 1), strs_m(ys@), at@, *g, file@));
        i = i + 1;
    }
    assert(s.take(xs.len() as int) =~= s);
}

// ── Completeness ─────────────────────────────────────────────────────────────

/// The stems of the source files, without repeats.
pub open spec fn stems(files: Seq<BuTextM>) -> Seq<Seq<char>> {
    dedup(files.map_values(|b: BuTextM| stem_of(b.name)))
}

/// The files an inventory lists, without repeats.
pub open spec fn listed_files(es: Seq<EntryM>) -> Seq<Seq<char>> {
    dedup(es.map_values(|e: EntryM| e.file))
}

/// The functions a file declares, without repeats.
pub open spec fn declared(bs: Seq<BulletM>) -> Seq<Seq<char>> {
    dedup(bs.map_values(|b: BulletM| b.name))
}

/// Errors of one entry whose file exists: functions declared but not listed,
/// then functions listed but not declared.
pub open spec fn listing_errs(e: EntryM, bs: Seq<BulletM>, at: Seq<char>) -> Seq<ErrM> {
    absent_errs(declared(bs), dedup(e.functions), at, Gap::FnNotListed, e.file)
        + absent_errs(dedup(e.functions), declared(bs), at, Gap::FnMissing, e.file)
}

/// The check of one entry. A file that cannot be read or parsed is passed
/// over here (its own check reports it); an abort stops the run.
#[verifier::opaque]
pub open spec fn entry_check(files: Seq<BuTextM>, e: EntryM, file_stems: Seq<Seq<char>>, at: Seq<char>) -> Result<Seq<ErrM>, Seq<char>> {
    if !file_stems.contains(e.file) {
        Ok(Seq::empty())
    } else {
        match find_file(files, e.file + ".bu"@) {
            Some(b) => match b.text {
                Ok(t) => match source_file(t) {
                    Outcome::Done(bs, _) => Ok(listing_errs(e, bs, at)),
                    Outcome::Fail(_, _) => Ok(Seq::empty()),
                    Outcome::Abort(m) => Err(m),
                },
                Err(_) => Ok(Seq::empty()),
            },
            None => Ok(Seq::empty()),
        }
    }
}

/// Runs `a`, then `b` unless `a` stopped; the errors of both, in order.
pub open spec fn chain(a: Result<Seq<ErrM>, Seq<char>>, b: Result<Seq<ErrM>, Seq<char>>) -> Result<Seq<ErrM>, Seq<char>> {
    match a {
        Err(m) => Err(m),
        Ok(x) => match b {
            Err(m) => Err(m),
            Ok(y) => Ok(x + y),
        },
    }
}

pub open spec fn entries_check(files: Seq<BuTextM>, es: Seq<EntryM>, file_stems: Seq<Seq<char>>, at: Seq<char>) -> Result<Seq<ErrM>, Seq<char>>
    decreases es.len(),
{
    if es.len() == 0 {
        Ok(Seq::empty())
    } else {
        chain(entries_check(files, es.drop_last(), file_stems, at), entry_check(files, es.last(), file_stems, at))
    }
}

/// A stop in the check of some first entries is the stop of the whole check.
pub proof fn lemma_entries_stop(files: Seq<BuTextM>, es: Seq<EntryM>, k: int, file_stems: Seq<Seq<char>>, at: Seq<char>)
    requires
        0 <= k <= es.len(),
        entries_check(files, es.take(k), file_stems, at) is Err,
    ensures
        entries_check(files, es, file_stems, at) == entries_check(files, es.take(k), file_stems, at),
    decreases es.len(),
{
    if k < es.len() {
        assert(es.drop_last().take(k) =~= es.take(k));
        lemma_entries_stop(files, es.drop_last(), k, file_stems, at);
    } else {
        assert(es.take(k) =~= es);
    }
}

/// The completeness check of a folder whose inventory is `inv` and whose
/// source files are `srcs`: unlisted files, then missing files, then each
/// entry's function listing. Errors are reported against the inventory file.
pub open spec fn completeness(dir: Seq<char>, files: Seq<BuTextM>, inv: InventoryM, srcs: Seq<BuTextM>) -> Result<Seq<ErrM>, Seq<char>> {
    let at = join_path(dir, "inventory.bu"@);
    let fs = stems(srcs);
    let ls = listed_files(inv.entries);
    chain(
        Ok(absent_errs(fs, ls, at, Gap::FileNotListed, Seq::empty()) + absent_errs(ls, fs, at, Gap::FileMissing, Seq::empty())),
        entries_check(files, inv.entries, fs, at),
    )
}

pub open spec fn check_m(r: Result<Vec<ValidationError>, String>) -> Result<Seq<ErrM>, Seq<char>> {
    match r {
        Ok(v) => Ok(errs_m(v@)),
        Err(m) => Err(m@),
    }
}

fn entry_errors(dir: &Folder, e: &InventoryEntry, file_stems: &Vec<String>, at: &str, errors: &mut Vec<ValidationError>) -> (stop: Option<String>)
    requires
        texts_fit(butexts_m(dir.files@)),
    ensures
        match entry_check(butexts_m(dir.files@), entry_m(*e), strs_m(file_stems@), at@) {
            Ok(x) => stop is None && errs_m(final(errors)@) == errs_m(old(errors)@) + x,
            Err(m) => stop matches Some(s) && s@ == m,
        },
{
    reveal(entry_check);
    if !contains_str(file_stems, e.file.as_str()) {
        assert(errs_m(errors@) =~= errs_m(errors@) + Seq::<ErrM>::empty());
        return None;
    }
    let name = concat(e.file.as_str(), ".bu");
    proof { lemma_find_index(butexts_m(dir.files@), name@); }
    match find_named(&dir.files, name.as_str()) {
        Some(b) => match &b.text {
            Ok(t) => {
                proof {
                    let k = crate::project::find_index(butexts_m(dir.files@), name@).unwrap();
                    assert(butexts_m(dir.files@)[k] == butext_m(*b));
                    assert(text_fits(butexts_m(dir.files@)[k].text));
                }
                match parse_file(t.as_str(), false) {
                    Ok(BuFile::Source(sf)) => {
                        let mut actual: Vec<String> = Vec::new();
                        let mut i: usize = 0;
                        while i < sf.bullets.len()
                            invariant
                                i <= sf.bullets.len(),
                                strs_m(actual@) == source_m(sf).take(i as int).map_values(|x: BulletM| x.name),
                            decreases sf.bullets.len() - i,
                        {
                            let ghost before = strs_m(actual@);
                            actual.push(owned(sf.bullets[i].name.as_str()));
                            assert(strs_m(actual@) =~= before.push(sf.bullets@[i as int].name@));
                            assert(source_m(sf).take(i + 1).map_values(|x: BulletM| x.name)
                                =~= source_m(sf).take(i as int).map_values(|x: BulletM| x.name).push(sf.bullets@[i as int].name@));
                            i = i + 1;
                        }
                        assert(source_m(sf).take(sf.bullets.len() as int) =~= source_m(sf));
                        let actual = dedup_strs(&actual);
                        let listed = dedup_strs(&e.functions);
                        push_absent(errors, &actual, &listed, at, &Gap::FnNotListed, e.file.as_str());
                        push_absent(errors, &listed, &actual, at, &Gap::FnMissing, e.file.as_str());
                        None
                    },
                    Ok(BuFile::Inventory(_)) => None,
                    Err(ParseError::Syntax(_)) => {
                        assert(errs_m(errors@) =~= errs_m(errors@) + Seq::<ErrM>::empty());
                        None
                    },
                    Err(ParseError::Aborted(m)) => Some(m),
                }
            },
            Err(_) => {
                assert(errs_m(errors@) =~= errs_m(errors@) + Seq::<ErrM>::empty());
                None
            },
        },
        None => {
            assert(errs_m(errors@) =~= errs_m(errors@) + Seq::<ErrM>::empty());
            None
        },
    }
}

/// Checks that the inventory of `dir` and its source files `bu_files` agree.
/// The result is the list of errors, or the message the run stops with when a
/// file lies outside the language.
pub fn validate_inventory_completeness(dir: &Folder, inv: &InventoryFile, bu_files: &Vec<&BuText>) -> (r: Result<Vec<ValidationError>, String>)
    requires
        texts_fit(butexts_m(dir.files@)),
    ensures
        check_m(r) == completeness(dir.path@, butexts_m(dir.files@), inventory_m(*inv), refs_m(bu_files@)),
{
    let at = join(dir.path.as_str(), "inventory.bu");
    let ghost srcs = refs_m(bu_files@);
    let mut all_stems: Vec<String> = Vec::new();
    let mut i: usize = 0;
    while i < bu_files.len()
        invariant
            i <= bu_files.len(),
            srcs == refs_m(bu_files@),
            strs_m(all_stems@) == srcs.take(i as int).map_values(|b: BuTextM| stem_of(b.name)),
        decreases bu_files.len() - i,
    {
        let ghost before = strs_m(all_stems@);
        all_stems.push(file_stem(bu_files[i].name.as_str()));
        assert(strs_m(all_stems@) =~= before.push(stem_of(bu_files@[i as int].name@)));
        assert(srcs.take(i + 1).map_values(|b: BuTextM| stem_of(b.name))
            =~= srcs.take(i as int).map_values(|b: BuTextM| stem_of(b.name)).push(stem_of(bu_files@[i as int].name@)));
        i = i + 1;
    }
    assert(srcs.take(bu_files.len() as int) =~= srcs);
    let file_stems = dedup_strs(&all_stems);

    let ghost es = inventory_m(*inv).entries;
    let mut all_listed: Vec<String> = Vec::new();
    let mut i: usize = 0;
    while i < inv.entries.len()
        invariant
            i <= inv.entries.len(),
            es == entries_m(inv.entries@),
            strs_m(all_listed@) == es.take(i as int).map_values(|e: EntryM| e.file),
        decreases inv.entries.len() - i,
    {
        let ghost before = strs_m(all_listed@);
        all_listed.push(owned(inv.entries[i].file.as_str()));
        assert(strs_m(all_listed@) =~= before.push(inv.entries@[i as int].file@));
        assert(es.take(i + 1).map_values(|e: EntryM| e.file)
            =~= es.take(i as int).map_values(|e: EntryM| e.file).push(inv.entries@[i as int].file@));
        i = i + 1;
    }
    assert(es.take(inv.entries.len() as int) =~= es);
    let inv_stems = dedup_strs(&all_listed);

    let mut errors: Vec<ValidationError> = Vec::new();
    assert(errs_m(errors@) =~= Seq::<ErrM>::empty());
    let none = String::new();
    push_absent(&mut errors, &file_stems, &inv_stems, at.as_str(), &Gap::FileNotListed, none.as_str());
    push_absent(&mut errors, &inv_stems, &file_stems, at.as_str(), &Gap::FileMissing, none.as_str());
    let ghost first = errs_m(errors@);
    let ghost mut acc: Seq<ErrM> = Seq::empty();
    assert(es.take(0) =~= Seq::<EntryM>::empty());
    assert(errs_m(errors@) =~= first + acc);

    let mut i: usize = 0;
    while i < inv.entries.len()
        invariant
            i <= inv.entries.len(),
            es == entries_m(inv.entries@),
            texts_fit(butexts_m(dir.files@)),
            entries_check(butexts_m(dir.files@), es.take(i as int), strs_m(file_stems@), at@) == Ok::<Seq<ErrM>, Seq<char>>(acc),
            errs_m(errors@) == first + acc,
            es == inventory_m(*inv).entries,
            strs_m(file_stems@) == stems(refs_m(bu_files@)),
            at@ == join_path(dir.path@, "inventory.bu"@),
        decreases inv.entries.len() - i,
    {
        assert(es.take(i + 1).drop_last() =~= es.take(i as int));
        assert(es.take(i + 1).last() == entry_m(inv.entries@[i as int]));
        let ghost before = errs_m(errors@);
        let ghost ec = entry_check(butexts_m(dir.files@), entry_m(inv.entries@[i as int]), strs_m(file_stems@), at@);
        assert(entries_check(butexts_m(dir.files@), es.take(i + 1), strs_m(file_stems@), at@)
            == chain(entries_check(butexts_m(dir.files@), es.take(i as int), strs_m(file_stems@), at@), ec));
        match entry_errors(dir, &inv.entries[i], &file_stems, at.as_str(), &mut errors) {
            Some(m) => {
                proof {
                    assert(ec == Err::<Seq<ErrM>, Seq<char>>(m@));
                    lemma_entries_stop(butexts_m(dir.files@), es, i + 1, strs_m(file_stems@), at@);
                }
                return Err(m);
            },
            None => {},
        }
        proof {
            let x = match ec { Ok(x) => x, Err(_) => Seq::empty() };
            assert(ec == Ok::<Seq<ErrM>, Seq<char>>(x));
            assert(errs_m(errors@) == before + x);
            acc = acc + x;
            assert(errs_m(errors@) =~= first + acc);
        }
        i = i + 1;
    }
    assert(es.take(inv.entries.len() as int) =~= es);
    Ok(errors)
}


proof fn lemma_absent_reported(xs: Seq<Seq<char>>, ys: Seq<Seq<char>>, at: Seq<char>, g: Gap, file: Seq<char>, x: Seq<char>)
    requires
        xs.contains(x),
        !ys.contains(x),
    ensures
        absent_errs(xs, ys, at, g, file).contains(whole(at, gap_msg(g, x, file))),
    decreases xs.len(),
{
    let e = whole(at, gap_msg(g, x, file));
    let rest = absent_errs(xs.drop_last(), ys, at, g, file);
    if xs.last() == x {
        let tail = seq![e];
        assert((rest + tail)[rest.len() as int] == e);
    } else {
        let k = choose|k: int| 0 <= k < xs.len() && xs[k] == x;
        assert(xs.drop_last()[k] == x);
        lemma_absent_reported(xs.drop_last(), ys, at, g, file, x);
        let i = choose|i: int| 0 <= i < rest.len() && rest[i] == e;
        let tail = if ys.contains(xs.last()) { Seq::<ErrM>::empty() } else { seq![whole(at, gap_msg(g, xs.last(), file))] };
        assert((rest + tail)[i] == e);
    }
}

/// Every source file of a folder must be listed in its inventory, and every
/// listed file must exist: a finished completeness check reports each source
/// file that no entry names, and each entry whose file is not there.
pub proof fn law_inventory_lists_every_file(dir: Seq<char>, files: Seq<BuTextM>, inv: InventoryM, srcs: Seq<BuTextM>, name: Seq<char>)
    requires
        completeness(dir, files, inv, srcs) is Ok,
    ensures
        (exists|i: int| 0 <= i < srcs.len() && stem_of(#[trigger] srcs[i].name) == name)
            && (forall|j: int| 0 <= j < inv.entries.len() ==> (#[trigger] inv.entries[j]).file != name)
            ==> completeness(dir, files, inv, srcs)->Ok_0.contains(
                whole(join_path(dir, "inventory.bu"@), gap_msg(Gap::FileNotListed, name, Seq::empty())),
            ),
        (exists|j: int| 0 <= j < inv.entries.len() && (#[trigger] inv.entries[j]).file == name)
            && (forall|i: int| 0 <= i < srcs.len() ==> stem_of(#[trigger] srcs[i].name) != name)
            ==> completeness(dir, files, inv, srcs)->Ok_0.contains(
                whole(join_path(dir, "inventory.bu"@), gap_msg(Gap::FileMissing, name, Seq::empty())),
            ),
{
    let at = join_path(dir, "inventory.bu"@);
    let raw_fs = srcs.map_values(|b: BuTextM| stem_of(b.name));
    let raw_ls = inv.entries.map_values(|e: EntryM| e.file);
    let fs = stems(srcs);
    let ls = listed_files(inv.entries);
    law_dedup(raw_fs);
    law_dedup(raw_ls);
    let a1 = absent_errs(fs, ls, at, Gap::FileNotListed, Seq::empty());
    let a2 = absent_errs(ls, fs, at, Gap::FileMissing, Seq::empty());
    let rest = entries_check(files, inv.entries, fs, at);
    assert(completeness(dir, files, inv, srcs) == chain(Ok(a1 + a2), rest));
    let all = completeness(dir, files, inv, srcs)->Ok_0;
    assert(all == a1 + a2 + rest->Ok_0);
    if (exists|i: int| 0 <= i < srcs.len() && stem_of(#[trigger] srcs[i].name) == name)
        && (forall|j: int| 0 <= j < inv.entries.len() ==> (#[trigger] inv.entries[j]).file != name) {
        let i = choose|i: int| 0 <= i < srcs.len() && stem_of(#[trigger] srcs[i].name) == name;
        assert(raw_fs[i] == name);
        assert(raw_fs.contains(name));
        assert(dedup(raw_fs).contains(name));
        assert(fs.contains(name));
        assert(!raw_ls.contains(name)) by {
            if raw_ls.contains(name) {
                let j = choose|j: int| 0 <= j < raw_ls.len() && raw_ls[j] == name;
                assert(inv.entries[j].file == name);
            }
        }
        lemma_absent_reported(fs, ls, at, Gap::FileNotListed, Seq::empty(), name);
        let e = whole(at, gap_msg(Gap::FileNotListed, name, Seq::empty()));
        let k = choose|k: int| 0 <= k < a1.len() && a1[k] == e;
        assert(all[k] == e);
    }
    if (exists|j: int| 0 <= j < inv.entries.len() && (#[trigger] inv.entries[j]).file == name)
        && (forall|i: int| 0 <= i < srcs.len() ==> stem_of(#[trigger] srcs[i].name) != name) {
        let j = choose|j: int| 0 <= j < inv.entries.len() && (#[trigger] inv.entries[j]).file == name;
        assert(raw_ls[j] == name);
        assert(raw_ls.contains(name));
        assert(dedup(raw_ls).contains(name));
        assert(ls.contains(name));
        assert(!raw_fs.contains(name)) by {
            if raw_fs.contains(name) {
                let i = choose|i: int| 0 <= i < raw_fs.len() && raw_fs[i] == name;
                assert(stem_of(srcs[i].name) == name);
            }
        }
        lemma_absent_reported(ls, fs, at, Gap::FileMissing, Seq::empty(), name);
        let e = whole(at, gap_msg(Gap::FileMissing, name, Seq::empty()));
        let k = choose|k: int| 0 <= k < a2.len() && a2[k] == e;
        assert(all[a1.len() + k] == e);
    }
}

/// Every function of a listed file must be listed next to it: the listing
/// check of an entry reports each function the file declares but the entry
/// omits, and each function the entry names but the file does not declare.
pub proof fn law_listing_names_every_function(e: EntryM, bs: Seq<BulletM>, at: Seq<char>, name: Seq<char>)
    ensures
        (exists|i: int| 0 <= i < bs.len() && (#[trigger] bs[i]).name == name) && !e.functions.contains(name)
            ==> listing_errs(e, bs, at).contains(whole(at, gap_msg(Gap::FnNotListed, name, e.file))),
        e.functions.contains(name) && (forall|i: int| 0 <= i < bs.len() ==> (#[trigger] bs[i]).name != name)
            ==> listing_errs(e, bs, at).contains(whole(at, gap_msg(Gap::FnMissing, name, e.file))),
{
    let raw = bs.map_values(|b: BulletM| b.name);
    let d = declared(bs);
    let l = dedup(e.functions);
    law_dedup(raw);
    law_dedup(e.functions);
    let a1 = absent_errs(d, l, at, Gap::FnNotListed, e.file);
    let a2 = absent_errs(l, d, at, Gap::FnMissing, e.file);
    if (exists|i: int| 0 <= i < bs.len() && (#[trigger] bs[i]).name == name) && !e.functions.contains(name) {
        let i = choose|i: int| 0 <= i < bs.len() && (#[trigger] bs[i]).name == name;
        assert(raw[i] == name);
        assert(raw.contains(name));
        assert(dedup(raw).contains(name));
        assert(!l.contains(name));
        lemma_absent_reported(d, l, at, Gap::FnNotListed, e.file, name);
        let x = whole(at, gap_msg(Gap::FnNotListed, name, e.file));
        let k = choose|k: int| 0 <= k < a1.len() && a1[k] == x;
        assert((a1 + a2)[k] == x);
    }
    if e.functions.contains(name) && (forall|i: int| 0 <= i < bs.len() ==> (#[trigger] bs[i]).name != name) {
        assert(l.contains(name));
        assert(!raw.contains(name)) by {
            if raw.contains(name) {
                let i = choose|i: int| 0 <= i < raw.len() && raw[i] == name;
                assert(bs[i].name == name);
            }
        }
        assert(!d.contains(name));
        lemma_absent_reported(l, d, at, Gap::FnMissing, e.file, name);
        let x = whole(at, gap_msg(Gap::FnMissing, name, e.file));
        let k = choose|k: int| 0 <= k < a2.len() && a2[k] == x;
        assert((a1 + a2)[a1.len() + k] == x);
    }
}

} // verus!
