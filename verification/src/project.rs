//! A project tree as found on disk: folders, their `.bu` files and their
//! contents. Reading the disk is left to the caller; everything decided
//! about the tree is decided here.

use vstd::prelude::*;
use crate::ast::{BuFile, InventoryFile, SourceFile};
use crate::grammar::{Outcome, inventory_file, source_file};
use crate::model::{BulletM, InventoryM, inventory_m, source_m};
use crate::parser::{ParseError, file_outcome, parse_file, pest_error_text};
use crate::text::{concat, owned, str_eq};

verus! {

/// A regular file with the `.bu` extension, directly inside a folder.
#[derive(Debug)]
pub struct BuText {
    /// The file name, such as `math.bu`.
    pub name: String,
    /// The file's path as the tool displays it.
    pub path: String,
    /// The file's contents, or the text of the I/O error met reading it.
    pub text: Result<String, String>,
}

/// A folder of a project tree.
#[derive(Debug)]
pub struct Folder {
    /// The folder's path as the tool displays it.
    pub path: String,
    /// The last component of the path.
    pub name: String,
    /// The regular files with the `.bu` extension directly inside, in name
    /// order, `inventory.bu` and `main.bu` among them.
    pub files: Vec<BuText>,
    /// The sub-folders, in name order.
    pub subdirs: Vec<Folder>,
}

pub struct BuTextM {
    pub name: Seq<char>,
    pub path: Seq<char>,
    pub text: Result<Seq<char>, Seq<char>>,
}

pub open spec fn butext_m(b: BuText) -> BuTextM {
    BuTextM {
        name: b.name@,
        path: b.path@,
        text: match b.text {
            Ok(t) => Ok(t@),
            Err(e) => Err(e@),
        },
    }
}

pub open spec fn butexts_m(s: Seq<BuText>) -> Seq<BuTextM> {
    s.map_values(|b: BuText| butext_m(b))
}

pub struct FolderM {
    pub path: Seq<char>,
    pub name: Seq<char>,
    pub files: Seq<BuTextM>,
    pub subdirs: Seq<FolderM>,
}

pub open spec fn folder_m(f: Folder) -> FolderM
    decreases f,
{
    FolderM { path: f.path@, name: f.name@, files: butexts_m(f.files@), subdirs: folders_m(f.subdirs@) }
}

pub open spec fn folders_m(s: Seq<Folder>) -> Seq<FolderM>
    decreases s,
{
    if s.len() == 0 {
        Seq::empty()
    } else {
        folders_m(s.drop_last()).push(folder_m(s.last()))
    }
}

pub proof fn lemma_folders_m(s: Seq<Folder>)
    ensures
        folders_m(s).len() == s.len(),
        forall|i: int| 0 <= i < s.len() ==> #[trigger] folders_m(s)[i] == folder_m(s[i]),
    decreases s.len(),
{
    if s.len() > 0 {
        lemma_folders_m(s.drop_last());
        assert forall|i: int| 0 <= i < s.len() implies #[trigger] folders_m(s)[i] == folder_m(s[i]) by {
            if i < s.len() - 1 {
                assert(s.drop_last()[i] == s[i]);
            }
        }
    }
}

/// A text that was read fits the parser's positions.
pub open spec fn text_fits(t: Result<Seq<char>, Seq<char>>) -> bool {
    match t {
        Ok(t) => t.len() < usize::MAX,
        Err(_) => true,
    }
}

/// Every text of a folder fits the parser's positions.
pub open spec fn texts_fit(files: Seq<BuTextM>) -> bool {
    forall|i: int| 0 <= i < files.len() ==> text_fits((#[trigger] files[i]).text)
}

/// `a` comes before `b` in the order of names (code point by code point, a
/// prefix first), the order in which the tool lists a folder.
pub open spec fn name_lt(a: Seq<char>, b: Seq<char>) -> bool
    decreases a.len(),
{
    if a.len() == 0 {
        b.len() > 0
    } else if b.len() == 0 {
        false
    } else if a[0] != b[0] {
        (a[0] as u32) < (b[0] as u32)
    } else {
        name_lt(a.drop_first(), b.drop_first())
    }
}

/// The files are listed by name, in ascending order (so no name twice).
pub open spec fn names_ascending(files: Seq<BuTextM>) -> bool {
    forall|i: int, j: int| 0 <= i < j < files.len() ==> name_lt((#[trigger] files[i]).name, (#[trigger] files[j]).name)
}

/// The folders are listed by name, in ascending order (so no name twice).
pub open spec fn folders_ascending(s: Seq<FolderM>) -> bool {
    forall|i: int, j: int| 0 <= i < j < s.len() ==> name_lt((#[trigger] s[i]).name, (#[trigger] s[j]).name)
}

/// A tree as the tool reads it from disk: in every folder the files and the
/// sub-folders are listed by name in ascending order, and every text fits
/// the parser's positions.
pub open spec fn tree_fits(f: FolderM) -> bool
    decreases f,
{
    texts_fit(f.files) && names_ascending(f.files) && folders_ascending(f.subdirs) && trees_fit(f.subdirs)
}

/// No name comes before itself: names listed in ascending order are distinct.
pub proof fn law_ascending_names_distinct(a: Seq<char>)
    ensures
        !name_lt(a, a),
    decreases a.len(),
{
    if a.len() > 0 {
        law_ascending_names_distinct(a.drop_first());
    }
}

pub open spec fn trees_fit(s: Seq<FolderM>) -> bool
    decreases s,
{
    s.len() == 0 || (trees_fit(s.drop_last()) && tree_fits(s.last()))
}

pub proof fn lemma_trees_fit(s: Seq<FolderM>)
    requires trees_fit(s),
    ensures forall|i: int| 0 <= i < s.len() ==> tree_fits(#[trigger] s[i]),
    decreases s.len(),
{
    if s.len() > 0 {
        lemma_trees_fit(s.drop_last());
        assert forall|i: int| 0 <= i < s.len() implies tree_fits(#[trigger] s[i]) by {
            if i < s.len() - 1 {
                assert(s.drop_last()[i] == s[i]);
            }
        }
    }
}

// ── Paths and names ──────────────────────────────────────────────────────────

/// `base` joined with `name` as `Path::join` does it with `/` separators: an
/// absolute `name` replaces `base`; otherwise a separator goes between them
/// unless `base` is empty or already ends with one.
pub open spec fn join_path(base: Seq<char>, name: Seq<char>) -> Seq<char> {
    if name.len() > 0 && name[0] == '/' {
        name
    } else if base.len() == 0 || base.last() == '/' {
        base + name
    } else {
        base + "/"@ + name
    }
}

pub fn join(base: &str, name: &str) -> (r: String)
    ensures
        r@ == join_path(base@, name@),
{
    let n = crate::text::chars_of(name);
    if n.len() > 0 && n[0] == '/' {
        return owned(name);
    }
    let b = crate::text::chars_of(base);
    if b.len() == 0 || b[b.len() - 1] == '/' {
        concat(base, name)
    } else {
        let mut r = owned(base);
        r.append("/");
        r.append(name);
        r
    }
}

/// A file name with the `bu` extension (`Path::extension() == Some("bu")`):
/// some character before the final `.bu`, and not only a leading dot.
pub open spec fn has_bu_ext(n: Seq<char>) -> bool {
    n.len() >= 4 && n.subrange(n.len() - 3, n.len() as int) == ".bu"@
}

/// The name without its `.bu` extension (`Path::file_stem`); a name without
/// that extension is its own stem.
pub open spec fn stem_of(n: Seq<char>) -> Seq<char> {
    if has_bu_ext(n) { n.subrange(0, n.len() - 3) } else { n }
}

/// The file is a source file: not one of the reserved `inventory.bu`,
/// `main.bu` and `blueprint.bu`.
pub open spec fn is_source_name(n: Seq<char>) -> bool {
    n != "inventory.bu"@ && n != "main.bu"@ && n != "blueprint.bu"@
}

pub fn is_bu_file_name(name: &str) -> (r: bool)
    ensures
        r == has_bu_ext(name@),
{
    let v = crate::text::chars_of(name);
    let n = v.len();
    if n >= 4 && v[n - 3] == '.' && v[n - 2] == 'b' && v[n - 1] == 'u' {
        proof { reveal_strlit(".bu"); }
        assert(v@.subrange(n - 3, n as int) =~= ".bu"@);
        true
    } else {
        proof { reveal_strlit(".bu"); }
        assert(n >= 4 ==> v@.subrange(n - 3, n as int)[0] == v@[n - 3]);
        assert(n >= 4 ==> v@.subrange(n - 3, n as int)[1] == v@[n - 2]);
        assert(n >= 4 ==> v@.subrange(n - 3, n as int)[2] == v@[n - 1]);
        false
    }
}

/// The stem of a `.bu` file name.
pub fn file_stem(name: &str) -> (r: String)
    ensures
        r@ == stem_of(name@),
{
    if is_bu_file_name(name) {
        let v = crate::text::chars_of(name);
        crate::text::slice_string(&v, 0, v.len() - 3)
    } else {
        owned(name)
    }
}

pub fn is_source_file_name(name: &str) -> (r: bool)
    ensures
        r == is_source_name(name@),
{
    !str_eq(name, "inventory.bu") && !str_eq(name, "main.bu") && !str_eq(name, "blueprint.bu")
}

// ── Finding files ────────────────────────────────────────────────────────────

/// Index of the first file named `n`.
pub open spec fn find_index(files: Seq<BuTextM>, n: Seq<char>) -> Option<int>
    decreases files.len(),
{
    if files.len() == 0 {
        None
    } else {
        match find_index(files.drop_last(), n) {
            Some(i) => Some(i),
            None => if files.last().name == n { Some(files.len() - 1) } else { None },
        }
    }
}

pub proof fn lemma_find_index(files: Seq<BuTextM>, n: Seq<char>)
    ensures
        find_index(files, n) matches Some(i) ==> 0 <= i < files.len() && files[i].name == n
            && forall|j: int| 0 <= j < i ==> files[j].name != n,
        find_index(files, n) is None ==> forall|j: int| 0 <= j < files.len() ==> files[j].name != n,
    decreases files.len(),
{
    if files.len() > 0 {
        lemma_find_index(files.drop_last(), n);
        assert forall|j: int| 0 <= j < files.len() - 1 implies files.drop_last()[j] == #[trigger] files[j] by {}
    }
}

/// The first file named `n`.
pub open spec fn find_file(files: Seq<BuTextM>, n: Seq<char>) -> Option<BuTextM> {
    match find_index(files, n) {
        Some(i) => Some(files[i]),
        None => None,
    }
}

pub fn find_named<'a>(files: &'a Vec<BuText>, n: &str) -> (r: Option<&'a BuText>)
    ensures
        match find_file(butexts_m(files@), n@) {
            Some(m) => r matches Some(b) && butext_m(*b) == m,
            None => r is None,
        },
{
    let ghost fs = butexts_m(files@);
    proof { lemma_find_index(fs, n@); }
    let mut i: usize = 0;
    while i < files.len()
        invariant
            i <= files.len(),
            fs == butexts_m(files@),
            forall|j: int| 0 <= j < i ==> fs[j].name != n@,
        decreases files.len() - i,
    {
        assert(fs[i as int] == butext_m(files@[i as int]));
        if str_eq(files[i].name.as_str(), n) {
            proof {
                lemma_find_index(fs, n@);
                if let Some(k) = find_index(fs, n@) {
                    assert(k == i);
                }
            }
            return Some(&files[i]);
        }
        i = i + 1;
    }
    None
}

// ── Reading files ────────────────────────────────────────────────────────────

/// What reading and parsing a file gave: the file, a reportable error, or an
/// abort (the tool stops with this message).
pub enum Loaded<T> {
    Found(T),
    Failed(String),
    Aborted(String),
}

pub enum LoadedM<T> {
    Found(T),
    Failed(Seq<char>),
    Aborted(Seq<char>),
}

/// `Missing inventory.bu in '<dir>' — every Bullang folder must have one.`
pub open spec fn m_missing_inventory(dir: Seq<char>) -> Seq<char> {
    "Missing inventory.bu in '"@ + dir + "' \u{2014} every Bullang folder must have one."@
}

/// The inventory of a folder, as `read_inventory` finds it.
pub open spec fn inventory_of(f: FolderM) -> LoadedM<InventoryM> {
    match find_file(f.files, "inventory.bu"@) {
        Some(b) => match b.text {
            Ok(t) => match inventory_file(t) {
                Outcome::Done(inv, _) => LoadedM::Found(inv),
                Outcome::Fail(p, m) => LoadedM::Failed(
                    "Parse error in inventory.bu: "@ + pest_error_text(t, p as nat, m),
                ),
                Outcome::Abort(m) => LoadedM::Aborted(m),
            },
            Err(_) => LoadedM::Failed(m_missing_inventory(f.path)),
        },
        None => LoadedM::Failed(m_missing_inventory(f.path)),
    }
}

pub open spec fn loaded_inv_m(r: Loaded<InventoryFile>) -> LoadedM<InventoryM> {
    match r {
        Loaded::Found(i) => LoadedM::Found(inventory_m(i)),
        Loaded::Failed(e) => LoadedM::Failed(e@),
        Loaded::Aborted(m) => LoadedM::Aborted(m@),
    }
}

/// Reads the inventory.bu of a folder.
pub fn read_inventory(dir: &Folder) -> (r: Loaded<InventoryFile>)
    requires
        texts_fit(butexts_m(dir.files@)),
    ensures
        loaded_inv_m(r) == inventory_of(folder_m(*dir)),
        r matches Loaded::Found(inv) ==> inv.structs.len() == 0,
{
    let missing = {
        let mut m = owned("Missing inventory.bu in '");
        m.append(dir.path.as_str());
        m.append("' \u{2014} every Bullang folder must have one.");
        m
    };
    proof { lemma_find_index(butexts_m(dir.files@), "inventory.bu"@); }
    match find_named(&dir.files, "inventory.bu") {
        Some(b) => match &b.text {
            Ok(t) => {
                proof {
                    let k = find_index(butexts_m(dir.files@), "inventory.bu"@).unwrap();
                    assert(butexts_m(dir.files@)[k] == butext_m(*b));
                }
                match parse_file(t.as_str(), true) {
                    Ok(BuFile::Inventory(inv)) => Loaded::Found(inv),
                    Ok(BuFile::Source(_)) => {
                        let mut m = owned("inventory.bu in '");
                        m.append(dir.path.as_str());
                        m.append("' parsed as a source file.");
                        Loaded::Failed(m)
                    },
                    Err(ParseError::Syntax(e)) => Loaded::Failed(concat("Parse error in inventory.bu: ", e.as_str())),
                    Err(ParseError::Aborted(m)) => Loaded::Aborted(m),
                }
            },
            Err(_) => Loaded::Failed(missing),
        },
        None => Loaded::Failed(missing),
    }
}

/// A source file's functions, as parsing gives them.
pub open spec fn source_of(t: Seq<char>) -> Outcome<Seq<BulletM>> {
    source_file(t)
}

pub open spec fn loaded_src_m(r: Loaded<SourceFile>) -> LoadedM<Seq<BulletM>> {
    match r {
        Loaded::Found(s) => LoadedM::Found(source_m(s)),
        Loaded::Failed(e) => LoadedM::Failed(e@),
        Loaded::Aborted(m) => LoadedM::Aborted(m@),
    }
}

/// A file read as a source file: the functions, or the message
/// `<read_prefix><io error>` / `<parse_prefix><pest diagnostic>`.
pub open spec fn source_loaded(b: BuTextM, read_prefix: Seq<char>, parse_prefix: Seq<char>) -> LoadedM<Seq<BulletM>> {
    match b.text {
        Ok(t) => match source_file(t) {
            Outcome::Done(bs, _) => LoadedM::Found(bs),
            Outcome::Fail(p, m) => LoadedM::Failed(parse_prefix + pest_error_text(t, p as nat, m)),
            Outcome::Abort(m) => LoadedM::Aborted(m),
        },
        Err(e) => LoadedM::Failed(read_prefix + e),
    }
}

/// Reads a file as a source file.
pub fn load_source(b: &BuText, read_prefix: &str, parse_prefix: &str) -> (r: Loaded<SourceFile>)
    requires
        b.text matches Ok(t) ==> t@.len() < usize::MAX,
    ensures
        loaded_src_m(r) == source_loaded(butext_m(*b), read_prefix@, parse_prefix@),
{
    match &b.text {
        Ok(t) => match parse_file(t.as_str(), false) {
            Ok(BuFile::Source(sf)) => Loaded::Found(sf),
            Ok(BuFile::Inventory(_)) => Loaded::Failed(owned(read_prefix)),
            Err(ParseError::Syntax(e)) => Loaded::Failed(concat(parse_prefix, e.as_str())),
            Err(ParseError::Aborted(m)) => Loaded::Aborted(m),
        },
        Err(e) => Loaded::Failed(concat(read_prefix, e.as_str())),
    }
}

// ── The files of a folder ────────────────────────────────────────────────────

/// The source files of a folder: its `.bu` files but `inventory.bu` and `main.bu`.
pub open spec fn sources(files: Seq<BuTextM>) -> Seq<BuTextM>
    decreases files.len(),
{
    if files.len() == 0 {
        files
    } else if is_source_name(files.last().name) {
        sources(files.drop_last()).push(files.last())
    } else {
        sources(files.drop_last())
    }
}

pub open spec fn refs_m(s: Seq<&BuText>) -> Seq<BuTextM> {
    s.map_values(|b: &BuText| butext_m(*b))
}

proof fn lemma_sources_from(files: Seq<BuTextM>)
    ensures
        forall|k: int| 0 <= k < sources(files).len() ==> exists|m: int| 0 <= m < files.len() && #[trigger] sources(files)[k] == files[m],
    decreases files.len(),
{
    if files.len() > 0 {
        lemma_sources_from(files.drop_last());
        let pre = sources(files.drop_last());
        assert forall|k: int| 0 <= k < sources(files).len() implies exists|m: int| 0 <= m < files.len() && #[trigger] sources(files)[k] == files[m] by {
            if k < pre.len() {
                assert(sources(files)[k] == pre[k]);
                let m = choose|m: int| 0 <= m < files.drop_last().len() && pre[k] == files.drop_last()[m];
                assert(files[m] == files.drop_last()[m]);
            } else {
                assert(sources(files)[k] == files[files.len() - 1]);
            }
        }
    }
}

/// The source files of a folder listed by name keep that order.
pub proof fn lemma_sources_ascending(files: Seq<BuTextM>)
    requires
        names_ascending(files),
    ensures
        names_ascending(sources(files)),
    decreases files.len(),
{
    if files.len() > 0 {
        let pre = files.drop_last();
        assert(names_ascending(pre)) by {
            assert forall|i: int, j: int| 0 <= i < j < pre.len() implies name_lt((#[trigger] pre[i]).name, (#[trigger] pre[j]).name) by {
                assert(pre[i] == files[i] && pre[j] == files[j]);
            }
        }
        lemma_sources_ascending(pre);
        lemma_sources_from(pre);
        let sp = sources(pre);
        if is_source_name(files.last().name) {
            let sf = sp.push(files.last());
            assert forall|i: int, j: int| 0 <= i < j < sf.len() implies name_lt((#[trigger] sf[i]).name, (#[trigger] sf[j]).name) by {
                if j < sp.len() {
                    assert(sf[i] == sp[i] && sf[j] == sp[j]);
                } else {
                    assert(sf[i] == sp[i]);
                    let m = choose|m: int| 0 <= m < pre.len() && #[trigger] sp[i] == pre[m];
                    assert(files[m] == pre[m]);
                    assert(name_lt(files[m].name, files[files.len() - 1].name));
                }
            }
        }
    }
}

/// The source files of a folder, in the order of the folder's listing: by
/// name, ascending, so no name twice.
pub fn collect_bu_files(dir: &Folder) -> (r: Vec<&BuText>)
    requires
        names_ascending(butexts_m(dir.files@)),
    ensures
        refs_m(r@) == sources(butexts_m(dir.files@)),
        names_ascending(refs_m(r@)),
{
    proof { lemma_sources_ascending(butexts_m(dir.files@)); }
    let ghost fs = butexts_m(dir.files@);
    let mut r: Vec<&BuText> = Vec::new();
    let mut i: usize = 0;
    while i < dir.files.len()
        invariant
            i <= dir.files.len(),
            fs == butexts_m(dir.files@),
            refs_m(r@) == sources(fs.take(i as int)),
        decreases dir.files.len() - i,
    {
        assert(fs.take(i + 1).drop_last() =~= fs.take(i as int));
        assert(fs.take(i + 1).last() == butext_m(dir.files@[i as int]));
        if is_source_file_name(dir.files[i].name.as_str()) {
            let ghost before = refs_m(r@);
            r.push(&dir.files[i]);
            assert(refs_m(r@) =~= before.push(butext_m(dir.files@[i as int])));
        }
        i = i + 1;
    }
    assert(fs.take(dir.files.len() as int) =~= fs);
    r
}

/// The folder's `main.bu`, when it has one.
pub fn main_bu_path(dir: &Folder) -> (r: Option<&BuText>)
    ensures
        match find_file(butexts_m(dir.files@), "main.bu"@) {
            Some(m) => r matches Some(b) && butext_m(*b) == m,
            None => r is None,
        },
{
    find_named(&dir.files, "main.bu")
}

} // verus!
