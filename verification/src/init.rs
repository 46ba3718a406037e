//! Scaffolding of new projects: the folder chain of a given depth, or the tree
//! a blueprint describes, as the steps that create it.

use vstd::prelude::*;
use crate::ast::{Rank, rank_child, rank_name};
use crate::model::strs_m;
use crate::project::{join, join_path};
use crate::text::usize_to_string;
use crate::text::{
    decimal, find_char, lines_m, indent_bytes, lemma_find_char, lines_of, owned, trim, trim_start, utf8_bytes,
};

verus! {

// ── Rank from depth ──────────────────────────────────────────────────────────

/// The rank of a folder with `d` levels from itself down to skirmish.
pub open spec fn depth_rank(d: int) -> Option<Rank> {
    if d == 1 {
        Some(Rank::Skirmish)
    } else if d == 2 {
        Some(Rank::Tactic)
    } else if d == 3 {
        Some(Rank::Strategy)
    } else if d == 4 {
        Some(Rank::Battle)
    } else if d == 5 {
        Some(Rank::Theater)
    } else if d == 6 {
        Some(Rank::War)
    } else {
        None
    }
}

pub fn rank_for_depth(depth: u8) -> (r: Option<Rank>)
    ensures
        r == depth_rank(depth as int),
{
    match depth {
        1 => Some(Rank::Skirmish),
        2 => Some(Rank::Tactic),
        3 => Some(Rank::Strategy),
        4 => Some(Rank::Battle),
        5 => Some(Rank::Theater),
        6 => Some(Rank::War),
        _ => None,
    }
}

/// Every rank, highest first.
pub open spec fn all_ranks() -> Seq<Rank> {
    seq![Rank::War, Rank::Theater, Rank::Battle, Rank::Strategy, Rank::Tactic, Rank::Skirmish]
}

/// The ranks from the root down to skirmish for a project of `depth` levels
/// (all six when `depth` is larger).
pub open spec fn chain_of(depth: nat) -> Seq<Rank> {
    all_ranks().skip(if depth >= 6 { 0 } else { 6 - depth })
}

fn rank_chain(depth: u8) -> (r: Vec<Rank>)
    ensures
        r@ == chain_of(depth as nat),
{
    let all = vec![Rank::War, Rank::Theater, Rank::Battle, Rank::Strategy, Rank::Tactic, Rank::Skirmish];
    let start: usize = if depth >= 6 { 0 } else { 6 - depth as usize };
    let mut r: Vec<Rank> = Vec::new();
    let mut i: usize = start;
    while i < 6
        invariant
            start <= i <= 6,
            all@ == all_ranks(),
            r@ == all_ranks().subrange(start as int, i as int),
        decreases 6 - i,
    {
        r.push(all[i]);
        assert(r@ =~= all_ranks().subrange(start as int, i + 1));
        i = i + 1;
    }
    assert(all_ranks().subrange(start as int, 6) =~= chain_of(depth as nat));
    r
}

// ── Steps ────────────────────────────────────────────────────────────────────

/// One thing to do on disk, in order.
pub enum Step {
    /// Create a folder and its missing parents.
    MakeDir(String),
    /// Write a file with the given contents.
    Write(String, String),
    /// Stop: the rest cannot be done, for this reason.
    Fail(String),
}

pub enum StepM {
    MakeDir(Seq<char>),
    Write(Seq<char>, Seq<char>),
    Fail(Seq<char>),
}

pub open spec fn step_m(s: Step) -> StepM {
    match s {
        Step::MakeDir(p) => StepM::MakeDir(p@),
        Step::Write(p, c) => StepM::Write(p@, c@),
        Step::Fail(m) => StepM::Fail(m@),
    }
}

pub open spec fn steps_m(s: Seq<Step>) -> Seq<StepM> {
    s.map_values(|x: Step| step_m(x))
}

/// What a scaffolding does: its root and the steps that create it.
pub struct Plan {
    pub root: String,
    pub steps: Vec<Step>,
}

/// The message for a step that failed on disk with `io_error`.
pub open spec fn step_failure_msg(s: StepM, io_error: Seq<char>) -> Seq<char> {
    match s {
        StepM::MakeDir(p) => "Could not create '"@ + p + "': "@ + io_error,
        StepM::Write(p, _) => "Could not write '"@ + p + "': "@ + io_error,
        StepM::Fail(m) => m,
    }
}

/// The error a scaffolding reports when `step` fails on disk with `io_error`.
pub fn step_failure(step: &Step, io_error: &str) -> (r: String)
    ensures
        r@ == step_failure_msg(step_m(*step), io_error@),
{
    match step {
        Step::MakeDir(p) => {
            let mut m = owned("Could not create '");
            m.append(p.as_str());
            m.append("': ");
            m.append(io_error);
            m
        },
        Step::Write(p, _) => {
            let mut m = owned("Could not write '");
            m.append(p.as_str());
            m.append("': ");
            m.append(io_error);
            m
        },
        Step::Fail(m) => owned(m.as_str()),
    }
}

/// The files a scaffolding created: its root and each file written, in order.
pub struct InitResult {
    pub root: String,
    pub files_created: Vec<String>,
}

/// The files a scaffolding from a blueprint created, in order.
pub struct BlueprintResult {
    pub root: String,
    pub files_created: Vec<String>,
}

// ── A chain of folders ───────────────────────────────────────────────────────

/// The directives of the root inventory: `#lang` and `#lib` lines.
pub open spec fn root_directives(lang: Option<Seq<char>>, libs: Seq<Seq<char>>) -> Seq<char> {
    (match lang {
        Some(l) => "\n#lang: "@ + l + ";\n"@,
        None => Seq::empty(),
    }) + (if libs.len() > 0 { "\n"@ + lib_lines(libs) } else { Seq::empty() })
}

pub open spec fn lib_lines(libs: Seq<Seq<char>>) -> Seq<char>
    decreases libs.len(),
{
    if libs.len() == 0 { Seq::empty() } else { lib_lines(libs.drop_last()) + "#lib: "@ + libs.last() + ";\n"@ }
}

/// The steps that create `dir` with rank `ranks[0]`, then its one child of
/// rank `ranks[1]` named `<rank>_<name>`, and so on down. Only the root
/// inventory carries the directives.
pub open spec fn chain_steps(dir: Seq<char>, ranks: Seq<Rank>, name: Seq<char>, directives: Seq<char>) -> Seq<StepM>
    decreases ranks.len(),
{
    if ranks.len() == 0 {
        Seq::empty()
    } else {
        seq![
            StepM::MakeDir(dir),
            StepM::Write(join_path(dir, "inventory.bu"@), "#rank: "@ + rank_name(ranks[0]) + ";\n"@ + directives),
        ] + (if ranks.len() > 1 {
            chain_steps(join_path(dir, rank_name(ranks[1]) + "_"@ + name), ranks.skip(1), name, Seq::empty())
        } else {
            Seq::empty()
        })
    }
}

pub open spec fn m_exists(root: Seq<char>) -> Seq<char> {
    "'"@ + root + "' already exists. Choose a different name or remove the existing folder."@
}

/// The scaffolding of a project `name` under `parent`: a chain of `depth`
/// folders from the root rank down to skirmish. `root_exists` tells whether
/// `<parent>/<name>` is already on disk, which is an error.
pub open spec fn init_plan(parent: Seq<char>, name: Seq<char>, depth: nat, lang: Option<Seq<char>>, libs: Seq<Seq<char>>, root_exists: bool) -> Result<(Seq<char>, Seq<StepM>), Seq<char>> {
    let root = join_path(parent, name);
    if root_exists {
        Err(m_exists(root))
    } else {
        Ok((root, chain_steps(root, chain_of(depth), name, root_directives(lang, libs))))
    }
}

pub open spec fn plan_m(r: Result<Plan, String>) -> Result<(Seq<char>, Seq<StepM>), Seq<char>> {
    match r {
        Ok(p) => Ok((p.root@, steps_m(p.steps@))),
        Err(e) => Err(e@),
    }
}

pub open spec fn opt_str_m(o: Option<&str>) -> Option<Seq<char>> {
    match o {
        Some(s) => Some(s@),
        None => None,
    }
}

fn push_step(steps: &mut Vec<Step>, s: Step)
    ensures
        steps_m(final(steps)@) == steps_m(old(steps)@).push(step_m(s)),
{
    let ghost before = steps@;
    steps.push(s);
    assert(steps_m(steps@) =~= steps_m(before).push(step_m(s)));
}

fn directives_text(lang: Option<&str>, libs: &Vec<String>) -> (r: String)
    ensures
        r@ == root_directives(opt_str_m(lang), strs_m(libs@)),
{
    let mut r = String::new();
    if let Some(l) = lang {
        r.append("\n#lang: ");
        r.append(l);
        r.append(";\n");
    }
    let ghost head = r@;
    if libs.len() > 0 {
        r.append("\n");
        let ghost mid = r@;
        let ghost ls = strs_m(libs@);
        let mut i: usize = 0;
        assert(ls.take(0) =~= Seq::<Seq<char>>::empty());
        assert(r@ =~= mid + lib_lines(ls.take(0)));
        while i < libs.len()
            invariant
                i <= libs.len(),
                ls == strs_m(libs@),
                r@ == mid + lib_lines(ls.take(i as int)),
            decreases libs.len() - i,
        {
            assert(ls.take(i + 1).drop_last() =~= ls.take(i as int));
            assert(ls.take(i + 1).last() == libs@[i as int]@);
            r.append("#lib: ");
            r.append(libs[i].as_str());
            r.append(";\n");
            assert(r@ =~= mid + lib_lines(ls.take(i + 1)));
            i = i + 1;
        }
        assert(ls.take(libs.len() as int) =~= ls);
    }
    assert(r@ =~= root_directives(opt_str_m(lang), strs_m(libs@)));
    r
}

/// Plans a new project: a chain of `depth` folders under `<parent>/<name>`,
/// each with its inventory; the root's carries `#lang` and `#lib`. An existing
/// root is refused at any depth; otherwise the depth is at least 1.
pub fn init(parent: &str, name: &str, depth: u8, lang: Option<&str>, libs: &Vec<String>, root_exists: bool) -> (r: Result<Plan, String>)
    requires
        depth >= 1 || root_exists,
    ensures
        plan_m(r) == init_plan(parent@, name@, depth as nat, opt_str_m(lang), strs_m(libs@), root_exists),
{
    let root = join(parent, name);
    if root_exists {
        let mut m = owned("'");
        m.append(root.as_str());
        m.append("' already exists. Choose a different name or remove the existing folder.");
        return Err(m);
    }
    let ranks = rank_chain(depth);
    let directives = directives_text(lang, libs);
    let mut steps: Vec<Step> = Vec::new();
    assert(ranks@.skip(0) =~= ranks@);
    create_level(root.as_str(), &ranks, 0, name, directives.as_str(), &mut steps);
    assert(steps_m(steps@) =~= chain_steps(root@, ranks@, name@, directives@));
    Ok(Plan { root, steps })
}

/// Appends the steps for the folder `dir` of rank `ranks[k]` and the chain
/// below it; `directives` go into this folder's inventory.
fn create_level(dir: &str, ranks: &Vec<Rank>, k: usize, name: &str, directives: &str, steps: &mut Vec<Step>)
    requires
        k < ranks.len(),
    ensures
        steps_m(final(steps)@) == steps_m(old(steps)@) + chain_steps(dir@, ranks@.skip(k as int), name@, directives@),
    decreases ranks.len() - k,
{
    let ghost start = steps_m(steps@);
    let ghost rest = ranks@.skip(k as int);
    assert(rest[0] == ranks@[k as int]);
    let mut content = owned("#rank: ");
    content.append(ranks[k].name());
    content.append(";\n");
    content.append(directives);
    push_step(steps, Step::MakeDir(owned(dir)));
    push_step(steps, Step::Write(join(dir, "inventory.bu"), content));
    if k + 1 < ranks.len() {
        let mut child_name = owned(ranks[k + 1].name());
        child_name.append("_");
        child_name.append(name);
        let child_dir = join(dir, child_name.as_str());
        assert(rest.skip(1) =~= ranks@.skip(k + 1));
        assert(rest[1] == ranks@[k + 1]);
        proof { reveal_strlit(""); }
        assert(""@ =~= Seq::<char>::empty());
        assert(child_name@ == rank_name(rest[1]) + "_"@ + name@);
        let ghost mid = steps_m(steps@);
        assert(mid =~= start + seq![
            StepM::MakeDir(dir@),
            StepM::Write(join_path(dir@, "inventory.bu"@), "#rank: "@ + rank_name(rest[0]) + ";\n"@ + directives@),
        ]);
        create_level(child_dir.as_str(), ranks, k + 1, name, "", steps);
        assert(steps_m(steps@) =~= start + chain_steps(dir@, rest, name@, directives@));
    } else {
        assert(steps_m(steps@) =~= start + chain_steps(dir@, rest, name@, directives@));
    }
}

// ── The project README ───────────────────────────────────────────────────────

/// The README written at the root of a project scaffolded from a blueprint.
pub const BULLANG_README: &'static str = "# Bullang

Bullang is a structured functional language that transpiles to Rust, Python, C, C++, and Go.
Every project is a hierarchy of folders. Each folder has a rank. Source files live only at
the leaf rank (skirmish). This file was generated by `bullang init --blueprint`.

---

## Hierarchy

Ranks from highest to lowest:

```
war > theater > battle > strategy > tactic > skirmish
```

Each folder must contain an `inventory.bu` declaring its rank.  Skirmish folders hold source files. All other ranks hold sub-folders.

Limits per level: 5 sub-folders \u{b7} 5 source files \u{b7} 5 functions per file \u{b7} 5 bullets per function.

---

## Writing a function

Every source file contains only function declarations \u{2014} no imports, no metadata.

```
let add(a: i32, b: i32) -> result: i32 {
    (a, b) : a + b -> {result};
}
```

`let name(params) -> output_name: ReturnType { body }`

A bullet (pipe statement): `(inputs) : expression -> {binding};`

Rules:
- Every binding must be consumed by a later bullet, except the final output.
- The last bullet must bind to the declared output name.
- No binding may be assigned twice.
- Maximum 5 bullets per function.

---

## Consuming arguments across bullets

Bullets pass values forward by name. Each bullet takes inputs from the parameter
list or from names bound by earlier bullets in the same function.

```
let scale_and_add(x: i32, y: i32, factor: i32) -> result: i32 {
    (x, factor) : x * factor -> {scaled};
    (scaled, y) : scaled + y -> {result};
}
```

`scaled` is produced by bullet 1 and consumed by bullet 2.
`result` matches the declared output, so the function returns it.

---

## Inventory files

Every folder must have `inventory.bu`:

```
#rank: skirmish;
#lang: rs;           \u{2190} optional: default convert target
#lib: stdio.h;       \u{2190} optional: C/C++ header include (repeatable)

math    : add, subtract, multiply;
helpers : clamp, abs_val;
```

Rules:
- Every .bu source file in the folder must be listed.
- Every function in a file must be listed next to its filename.
- `main.bu` and `blueprint.bu` are reserved \u{2014} never list them.

---

## Native escape blocks

For logic Bullang pipes cannot express:

```
let sum_vec(values: Vec[i32]) -> result: i32 {
    @rust
    values.iter().sum()
    @end
}
```

Backends: `@rust`  `@python`  `@c`  `@cpp`  `@go`

---

## Builtin standard library

```
let upper(s: String) -> result: String {
    builtin::to_upper
}
```

Universal builtins (work in all 5 backends):

| Category | Builtins |
|----------|----------|
| Math | `abs` `pow` `powf` `sqrt` `clamp` |
| String | `to_upper` `to_lower` `trim` `starts_with` `ends_with` `replace_str` `to_string` `parse_i64` |

Run `bullang stdlib --list` for full signatures and parameter counts.

---

## Types

| Bullang | Description |
|---------|-------------|
| `Vec[T]` | Dynamic array |
| `Option[T]` | Nullable value |
| `Tuple[T, U]` | Fixed-size tuple |
| `Fn[T -> U]` | Function reference |
| `i32`, `i64`, `f64`... | Numeric primitives |
| `bool`, `char`, `String` | Other primitives |

---

## Commands

```
bullang check                validate from anywhere in the tree
bullang convert my_project   transpile (reads #lang, defaults to Rust)
bullang convert file.bu      transpile a single file to stdout
bullang init --help          all init options
bullang stdlib --list        available builtins
bullang lsp                  start the language server
bullang editor-setup         write LSP config for Neovim / Helix / Emacs
bullang update               pull and rebuild from the repository
```
";


// ── Blueprints ───────────────────────────────────────────────────────────────

/// A node of a blueprint: a folder with its children, or an inventory entry.
#[derive(Debug)]
pub enum BlueprintNode {
    Folder { name: String, children: Vec<BlueprintNode> },
    Entry { file: String, functions: Vec<String> },
}

pub enum NodeM {
    Folder(Seq<char>, Seq<NodeM>),
    Entry(Seq<char>, Seq<Seq<char>>),
}

pub open spec fn node_m(n: BlueprintNode) -> NodeM
    decreases n,
{
    match n {
        BlueprintNode::Folder { name, children } => NodeM::Folder(name@, nodes_m(children@)),
        BlueprintNode::Entry { file, functions } => NodeM::Entry(file@, strs_m(functions@)),
    }
}

pub open spec fn nodes_m(s: Seq<BlueprintNode>) -> Seq<NodeM>
    decreases s,
{
    if s.len() == 0 { Seq::empty() } else { nodes_m(s.drop_last()).push(node_m(s.last())) }
}

pub proof fn lemma_nodes_m(s: Seq<BlueprintNode>)
    ensures
        nodes_m(s).len() == s.len(),
        forall|i: int| 0 <= i < s.len() ==> #[trigger] nodes_m(s)[i] == node_m(s[i]),
    decreases s.len(),
{
    if s.len() > 0 {
        lemma_nodes_m(s.drop_last());
        assert forall|i: int| 0 <= i < s.len() implies #[trigger] nodes_m(s)[i] == node_m(s[i]) by {
            if i < s.len() - 1 {
                assert(s.drop_last()[i] == s[i]);
            }
        }
    }
}

/// A line that is a comment: it starts with `//`.
pub open spec fn is_comment(t: Seq<char>) -> bool {
    t.len() >= 2 && t[0] == '/' && t[1] == '/'
}

/// The text without any trailing `c` (`trim_end_matches`).
pub open spec fn strip_end(t: Seq<char>, c: char) -> Seq<char>
    decreases t.len(),
{
    if t.len() > 0 && t.last() == c { strip_end(t.drop_last(), c) } else { t }
}

/// The names of a comma-separated list, each trimmed, empty ones left out.
pub open spec fn fn_list(s: Seq<char>) -> Seq<Seq<char>>
    decreases s.len(),
{
    let k = find_char(s, ',', 0);
    proof { lemma_find_char(s, ',', 0); }
    let piece = trim(s.take(k));
    (if piece.len() > 0 { seq![piece] } else { Seq::empty() }) + (if k < s.len() {
        fn_list(s.skip(k + 1))
    } else {
        Seq::empty()
    })
}

/// The indent unit of a blueprint: the indentation (in bytes) of the first
/// indented line that is neither blank nor a comment; 4 when there is none.
pub open spec fn indent_unit(ls: Seq<Seq<char>>) -> nat
    decreases ls.len(),
{
    if ls.len() == 0 {
        4
    } else if trim(ls[0]).len() == 0 || is_comment(trim_start(ls[0])) || indent_bytes(ls[0]) == 0 {
        indent_unit(ls.skip(1))
    } else {
        indent_bytes(ls[0])
    }
}

pub open spec fn m_bad_indent(n: nat, base: nat, ind: nat, t: Seq<char>) -> Seq<char> {
    "line "@ + decimal(n) + ": unexpected indentation (expected "@ + decimal(base) + " spaces, got "@
        + decimal(ind) + "): '"@ + t + "'"@
}

pub open spec fn m_empty_folder(n: nat) -> Seq<char> {
    "line "@ + decimal(n) + ": empty folder name"@
}

pub open spec fn m_empty_file(n: nat) -> Seq<char> {
    "line "@ + decimal(n) + ": empty file name in entry"@
}

pub open spec fn m_bad_line(n: nat, t: Seq<char>) -> Seq<char> {
    "line "@ + decimal(n) + ": expected 'folder:' or 'filename: fn1, fn2' \u{2014} got '"@ + t + "'"@
}

/// The nodes of the block that starts at line `i` with indentation `base`,
/// after the nodes `acc` already read, and the line where the block ends: the
/// first line (not blank, not a comment) that is less indented. A line ending
/// in `:` opens a folder whose children are indented by one more `unit`; any
/// other line is an entry `file: fn1, fn2` with an optional final `;`.
pub open spec fn block(ls: Seq<Seq<char>>, i: int, base: nat, unit: nat, acc: Seq<NodeM>) -> Result<(Seq<NodeM>, int), Seq<char>>
    decreases ls.len() - i,
{
    if i < 0 || i >= ls.len() {
        Ok((acc, i))
    } else {
        let line = ls[i];
        let t = trim(line);
        if t.len() == 0 || is_comment(t) {
            block(ls, i + 1, base, unit, acc)
        } else {
            let ind = indent_bytes(line);
            if ind < base {
                Ok((acc, i))
            } else if ind > base {
                Err(m_bad_indent((i + 1) as nat, base, ind, t))
            } else if t.last() == ':' {
                let name = trim(strip_end(t, ':'));
                if name.len() == 0 {
                    Err(m_empty_folder((i + 1) as nat))
                } else {
                    match block(ls, i + 1, base + unit, unit, Seq::empty()) {
                        Err(e) => Err(e),
                        Ok((children, next)) => if i < next <= ls.len() {
                            block(ls, next, base, unit, acc.push(NodeM::Folder(name, children)))
                        } else {
                            // never: the block below starts after this line
                            Ok((acc, next))
                        },
                    }
                }
            } else {
                let entry = strip_end(t, ';');
                let c = find_char(entry, ':', 0);
                if c >= entry.len() {
                    Err(m_bad_line((i + 1) as nat, t))
                } else {
                    let file = trim(entry.take(c));
                    if file.len() == 0 {
                        Err(m_empty_file((i + 1) as nat))
                    } else {
                        block(ls, i + 1, base, unit, acc.push(NodeM::Entry(file, fn_list(trim(entry.skip(c + 1))))))
                    }
                }
            }
        }
    }
}

/// What the lines of a blueprint describe: the top-level nodes, or the first
/// error.
pub open spec fn blueprint_lines(ls: Seq<Seq<char>>) -> Result<Seq<NodeM>, Seq<char>> {
    match block(ls, 0, 0, indent_unit(ls), Seq::empty()) {
        Ok((ns, _)) => Ok(ns),
        Err(e) => Err(e),
    }
}

/// What a blueprint describes: its top-level nodes, or the first error.
pub open spec fn blueprint_of(source: Seq<char>) -> Result<Seq<NodeM>, Seq<char>> {
    blueprint_lines(lines_of(source))
}


/// The end of `t` once every trailing `c` is dropped.
fn strip_end_len(t: &Vec<char>, c: char) -> (e: usize)
    ensures
        e <= t.len(),
        t@.take(e as int) == strip_end(t@, c),
{
    let mut e: usize = t.len();
    assert(t@.take(e as int) =~= t@);
    while e > 0 && t[e - 1] == c
        invariant
            e <= t.len(),
            strip_end(t@, c) == strip_end(t@.take(e as int), c),
        decreases e,
    {
        assert(t@.take(e as int).drop_last() =~= t@.take(e - 1));
        e = e - 1;
    }
    e
}

/// The names of a comma-separated list.
fn fn_list_of(s: &Vec<char>) -> (r: Vec<String>)
    ensures
        strs_m(r@) == fn_list(s@),
{
    let n = s.len();
    let mut out: Vec<String> = Vec::new();
    let mut start: usize = 0;
    assert(s@.skip(0) =~= s@);
    assert(strs_m(out@) + fn_list(s@.skip(0)) =~= fn_list(s@));
    loop
        invariant
            start <= n,
            n == s.len(),
            strs_m(out@) + fn_list(s@.skip(start as int)) == fn_list(s@),
        decreases n - start,
    {
        let ghost rest = s@.skip(start as int);
        let mut k: usize = start;
        while k < n && s[k] != ','
            invariant
                start <= k <= n,
                n == s.len(),
                find_char(s@, ',', start as int) == find_char(s@, ',', k as int),
            decreases n - k,
        {
            k = k + 1;
        }
        proof {
            crate::text::lemma_find_char_skip(s@, ',', start as int, start as int);
            assert(find_char(rest, ',', 0) == k - start);
            assert(rest.take(k - start) =~= s@.subrange(start as int, k as int));
        }
        let (a, b) = crate::text::trim_range(s, start, k);
        let ghost before = strs_m(out@);
        if a < b {
            out.push(crate::text::slice_string(s, a, b));
        }
        let ghost piece = trim(s@.subrange(start as int, k as int));
        assert(strs_m(out@) =~= before + (if piece.len() > 0 { seq![piece] } else { Seq::<Seq<char>>::empty() }));
        if k >= n {
            proof {
                assert(s@.skip(n as int) =~= Seq::<char>::empty());
                assert(strs_m(out@) + fn_list(s@.skip(n as int)) =~= before + fn_list(rest));
            }
            assert(strs_m(out@) =~= fn_list(s@));
            return out;
        }
        proof {
            assert(rest.skip(k - start + 1) =~= s@.skip(k + 1));
            assert(strs_m(out@) + fn_list(s@.skip(k + 1)) =~= before + fn_list(rest));
        }
        start = k + 1;
    }
}

pub open spec fn lines_fit(ls: Seq<Seq<char>>) -> bool {
    forall|k: int| 0 <= k < ls.len() ==> utf8_bytes(#[trigger] ls[k]) <= isize::MAX
}

fn is_comment_at(t: &Vec<char>, a: usize, b: usize) -> (r: bool)
    requires
        a <= b <= t.len(),
    ensures
        r == is_comment(t@.subrange(a as int, b as int)),
{
    b - a >= 2 && t[a] == '/' && t[a + 1] == '/'
}

/// The indent unit of a blueprint's lines.
fn detect_indent_unit(lines: &Vec<Vec<char>>) -> (unit: usize)
    requires
        lines_fit(lines_m(lines@)),
    ensures
        unit == indent_unit(lines_m(lines@)),
        unit <= isize::MAX,
{
    let ghost ls = lines_m(lines@);
    let mut i: usize = 0;
    assert(ls.skip(0) =~= ls);
    while i < lines.len()
        invariant
            i <= lines.len(),
            ls == lines_m(lines@),
            lines_fit(ls),
            indent_unit(ls) == indent_unit(ls.skip(i as int)),
        decreases lines.len() - i,
    {
        let line = &lines[i];
        let ghost rest = ls.skip(i as int);
        assert(rest[0] == line@);
        assert(rest.skip(1) =~= ls.skip(i + 1));
        assert(utf8_bytes(ls[i as int]) <= isize::MAX);
        let (a, b) = crate::text::trim_range(line, 0, line.len());
        let lead = crate::text::count_lead_ws(line, 0, line.len());
        proof {
            crate::text::lemma_lead_ws_bound(line@);
            assert(line@.subrange(0, line@.len() as int) =~= line@);
            assert(crate::text::trim_start(line@) =~= line@.subrange(lead as int, line.len() as int));
        }
        if a < b && !is_comment_at(line, lead, line.len()) {
            let spaces = crate::text::indent_of(line);
            proof {
                crate::text::lemma_utf8_sub(line@, 0, crate::text::lead_ws(line@) as int);
                assert(line@.take(crate::text::lead_ws(line@) as int) =~= line@.subrange(0, crate::text::lead_ws(line@) as int));
            }
            if spaces > 0 {
                return spaces;
            }
        }
        i = i + 1;
    }
    assert(ls.skip(lines.len() as int) =~= Seq::<Seq<char>>::empty());
    4
}


fn line_msg(n: usize, rest: &str) -> (r: String)
    ensures
        r@ == "line "@ + decimal(n as nat) + rest@,
{
    let mut m = owned("line ");
    m.append(usize_to_string(n).as_str());
    m.append(rest);
    m
}

pub open spec fn block_m(r: Result<(Vec<BlueprintNode>, usize), String>) -> Result<(Seq<NodeM>, int), Seq<char>> {
    match r {
        Ok((v, n)) => Ok((nodes_m(v@), n as int)),
        Err(e) => Err(e@),
    }
}

/// Reads the block of lines from `start` at indentation `base_indent`; the
/// result is its nodes and the index of the first line after it.
#[verifier::loop_isolation(false)]
fn parse_block(lines: &Vec<Vec<char>>, start: usize, base_indent: usize, unit: usize) -> (r: Result<(Vec<BlueprintNode>, usize), String>)
    requires
        start <= lines.len(),
        unit <= isize::MAX,
        lines_fit(lines_m(lines@)),
    ensures
        block_m(r) == block(lines_m(lines@), start as int, base_indent as nat, unit as nat, Seq::empty()),
        r matches Ok((_, next)) ==> start <= next <= lines.len(),
    decreases lines.len() - start,
{
    let ghost ls = lines_m(lines@);
    let mut nodes: Vec<BlueprintNode> = Vec::new();
    let mut i: usize = start;
    assert(nodes_m(nodes@) =~= Seq::<NodeM>::empty());
    while i < lines.len()
        invariant
            start <= i <= lines.len(),
            ls == lines_m(lines@),
            block(ls, start as int, base_indent as nat, unit as nat, Seq::empty())
                == block(ls, i as int, base_indent as nat, unit as nat, nodes_m(nodes@)),
        decreases lines.len() - i,
    {
        let line = &lines[i];
        assert(ls[i as int] == line@);
        assert(utf8_bytes(ls[i as int]) <= isize::MAX);
        let (a, b) = crate::text::trim_range(line, 0, line.len());
        assert(line@.subrange(0, line@.len() as int) =~= line@);
        if a == b || is_comment_at(line, a, b) {
            i = i + 1;
        } else {
            let t = crate::text::sub_vec(line, a, b);
            let indent = crate::text::indent_of(line);
            proof {
                crate::text::lemma_lead_ws_bound(line@);
                crate::text::lemma_utf8_sub(line@, 0, crate::text::lead_ws(line@) as int);
                assert(line@.take(crate::text::lead_ws(line@) as int) =~= line@.subrange(0, crate::text::lead_ws(line@) as int));
            }
            assert(t@ == trim(ls[i as int]));
            assert(indent == indent_bytes(ls[i as int]));
            assert(t@.len() > 0 && !is_comment(t@));
            if indent < base_indent {
                return Ok((nodes, i));
            }
            if indent > base_indent {
                let mut m = line_msg(i + 1, ": unexpected indentation (expected ");
                m.append(usize_to_string(base_indent).as_str());
                m.append(" spaces, got ");
                m.append(usize_to_string(indent).as_str());
                m.append("): '");
                m.append(crate::text::slice_string(&t, 0, t.len()).as_str());
                m.append("'");
                assert(t@.subrange(0, t@.len() as int) =~= t@);
                return Err(m);
            }
            if t[t.len() - 1] == ':' {
                let e = strip_end_len(&t, ':');
                let (na, nb) = crate::text::trim_range(&t, 0, e);
                assert(t@.subrange(0, e as int) =~= t@.take(e as int));
                if na == nb {
                    return Err(line_msg(i + 1, ": empty folder name"));
                }
                let name = crate::text::slice_string(&t, na, nb);
                match parse_block(lines, i + 1, base_indent + unit, unit) {
                    Err(m) => return Err(m),
                    Ok((children, next)) => {
                        let ghost old_v = nodes@;
                        let ghost nm = name@;
                        let ghost cm = nodes_m(children@);
                        assert(block(ls, i as int, base_indent as nat, unit as nat, nodes_m(old_v))
                            == block(ls, next as int, base_indent as nat, unit as nat, nodes_m(old_v).push(NodeM::Folder(nm, cm))));
                        nodes.push(BlueprintNode::Folder { name, children });
                        assert(nodes@.drop_last() =~= old_v);
                        assert(node_m(nodes@.last()) == NodeM::Folder(nm, cm));
                        assert(nodes_m(nodes@) == nodes_m(old_v).push(NodeM::Folder(nm, cm)));
                        assert(block(ls, start as int, base_indent as nat, unit as nat, Seq::empty())
                            == block(ls, next as int, base_indent as nat, unit as nat, nodes_m(nodes@)));
                        i = next;
                    },
                }
            } else {
                let e = strip_end_len(&t, ';');
                let entry = crate::text::sub_vec(&t, 0, e);
                assert(entry@ =~= t@.take(e as int));
                let mut c: usize = 0;
                while c < entry.len() && entry[c] != ':'
                    invariant
                        c <= entry.len(),
                        find_char(entry@, ':', 0) == find_char(entry@, ':', c as int),
                    decreases entry.len() - c,
                {
                    c = c + 1;
                }
                assert(find_char(entry@, ':', 0) == c);
                if c >= entry.len() {
                    let mut m = line_msg(i + 1, ": expected 'folder:' or 'filename: fn1, fn2' \u{2014} got '");
                    m.append(crate::text::slice_string(&t, 0, t.len()).as_str());
                    m.append("'");
                    assert(t@.subrange(0, t@.len() as int) =~= t@);
                    return Err(m);
                }
                let (fa, fb) = crate::text::trim_range(&entry, 0, c);
                assert(entry@.subrange(0, c as int) =~= entry@.take(c as int));
                if fa == fb {
                    return Err(line_msg(i + 1, ": empty file name in entry"));
                }
                let file = crate::text::slice_string(&entry, fa, fb);
                let (ga, gb) = crate::text::trim_range(&entry, c + 1, entry.len());
                assert(entry@.subrange(c + 1, entry@.len() as int) =~= entry@.skip(c + 1));
                let fns_str = crate::text::sub_vec(&entry, ga, gb);
                let functions = fn_list_of(&fns_str);
                assert(entry@ == strip_end(t@, ';'));
                assert(file@ == trim(entry@.take(c as int)));
                assert(fns_str@ == trim(entry@.skip(c + 1)));
                assert(t@.last() != ':');
                assert(block(ls, i as int, base_indent as nat, unit as nat, nodes_m(nodes@))
                    == block(ls, i + 1, base_indent as nat, unit as nat, nodes_m(nodes@).push(NodeM::Entry(file@, strs_m(functions@)))));
                let ghost old_v = nodes@;
                let ghost fm = file@;
                let ghost fnm = strs_m(functions@);
                nodes.push(BlueprintNode::Entry { file, functions });
                assert(nodes@.drop_last() =~= old_v);
                assert(node_m(nodes@.last()) == NodeM::Entry(fm, fnm));
                assert(nodes_m(nodes@) == nodes_m(old_v).push(NodeM::Entry(fm, fnm)));
                assert(block(ls, start as int, base_indent as nat, unit as nat, Seq::empty())
                    == block(ls, i + 1, base_indent as nat, unit as nat, nodes_m(nodes@)));
                i = i + 1;
            }
        }
    }
    Ok((nodes, i))
}

/// Reads a blueprint: its top-level nodes, or the first error.
pub fn parse_blueprint(source: &str) -> (r: Result<Vec<BlueprintNode>, String>)
    requires
        utf8_bytes(source@) <= isize::MAX,
    ensures
        match blueprint_of(source@) {
            Ok(ns) => r matches Ok(v) && nodes_m(v@) == ns,
            Err(e) => r matches Err(m) && m@ == e,
        },
{
    let lines = crate::text::split_lines(source);
    proof {
        crate::text::lemma_lines_bytes(source@);
        assert forall|k: int| 0 <= k < lines_m(lines@).len() implies utf8_bytes(#[trigger] lines_m(lines@)[k]) <= isize::MAX by {
            assert(lines_m(lines@)[k] == lines_of(source@)[k]);
        }
    }
    let unit = detect_indent_unit(&lines);
    match parse_block(&lines, 0, 0, unit) {
        Ok((nodes, _)) => Ok(nodes),
        Err(m) => Err(m),
    }
}


// ── A blueprint's tree ───────────────────────────────────────────────────────

/// How many levels of folders a forest holds, counting the level of its own
/// entries (a forest of entries only has depth 1).
pub open spec fn forest_depth(ns: Seq<NodeM>) -> nat
    decreases ns, 1nat,
{
    let m = folders_depth(ns);
    if m == 0 { 1 } else { m }
}

/// The largest depth of a folder of the forest (0 when it has none).
pub open spec fn folders_depth(ns: Seq<NodeM>) -> nat
    decreases ns, 0nat,
{
    if ns.len() == 0 {
        0
    } else {
        let a = folders_depth(ns.drop_last());
        let b = match ns.last() {
            NodeM::Folder(_, ch) => 1 + forest_depth(ch),
            NodeM::Entry(_, _) => 0,
        };
        if a >= b { a } else { b }
    }
}

/// A folder of the forest is one level deeper than its children.
pub proof fn lemma_folder_depth(ns: Seq<NodeM>, i: int)
    requires
        0 <= i < ns.len(),
    ensures
        ns[i] matches NodeM::Folder(_, ch) ==> 1 + forest_depth(ch) <= forest_depth(ns),
    decreases ns.len(),
{
    if i < ns.len() - 1 {
        lemma_folder_depth(ns.drop_last(), i);
        assert(ns.drop_last()[i] == ns[i]);
    }
}

/// The depth of a blueprint forest.
#[verifier::loop_isolation(false)]
fn tree_depth(nodes: &Vec<BlueprintNode>) -> (d: usize)
    requires
        forest_depth(nodes_m(nodes@)) < usize::MAX,
    ensures
        d == forest_depth(nodes_m(nodes@)),
    decreases nodes,
{
    let ghost ns = nodes_m(nodes@);
    proof { lemma_nodes_m(nodes@); }
    let mut max: usize = 0;
    let mut i: usize = 0;
    assert(ns.take(0) =~= Seq::<NodeM>::empty());
    while i < nodes.len()
        invariant
            i <= nodes.len(),
            max == folders_depth(ns.take(i as int)),
            max <= folders_depth(ns),
        decreases nodes.len() - i,
    {
        assert(ns.take(i + 1).drop_last() =~= ns.take(i as int));
        assert(ns.take(i + 1).last() == ns[i as int]);
        proof { lemma_folders_prefix(ns, i + 1); }
        if let BlueprintNode::Folder { children, .. } = &nodes[i] {
            proof {
                lemma_folder_depth(ns, i as int);
                assert(ns[i as int] == NodeM::Folder(nodes@[i as int]->Folder_name@, nodes_m(children@)));
            }
            let child_depth = 1 + tree_depth(children);
            if child_depth > max {
                max = child_depth;
            }
        }
        i = i + 1;
    }
    assert(ns.take(nodes.len() as int) =~= ns);
    if max == 0 { 1 } else { max }
}

/// The folders of a prefix of a forest are no deeper than the whole forest's.
pub proof fn lemma_folders_prefix(ns: Seq<NodeM>, k: int)
    requires
        0 <= k <= ns.len(),
    ensures
        folders_depth(ns.take(k)) <= folders_depth(ns),
    decreases ns.len(),
{
    if k < ns.len() {
        lemma_folders_prefix(ns.drop_last(), k);
        assert(ns.drop_last().take(k) =~= ns.take(k));
    } else {
        assert(ns.take(k) =~= ns);
    }
}


// ── Blueprint → steps ────────────────────────────────────────────────────────

/// Names joined by `", "`.
pub open spec fn comma_join(ns: Seq<Seq<char>>) -> Seq<char>
    decreases ns.len(),
{
    if ns.len() == 0 {
        Seq::empty()
    } else if ns.len() == 1 {
        ns[0]
    } else {
        comma_join(ns.drop_last()) + ", "@ + ns.last()
    }
}

/// The inventory lines of the entries of a forest.
pub open spec fn entry_lines(ns: Seq<NodeM>) -> Seq<char>
    decreases ns.len(),
{
    if ns.len() == 0 {
        Seq::empty()
    } else {
        entry_lines(ns.drop_last()) + match ns.last() {
            NodeM::Entry(f, fns) => f + ": "@ + comma_join(fns) + ";\n"@,
            NodeM::Folder(_, _) => Seq::empty(),
        }
    }
}

/// The entries part of an inventory: a blank line, then one line per entry.
pub open spec fn entries_block(ns: Seq<NodeM>) -> Seq<char> {
    if entry_lines(ns).len() > 0 { "\n"@ + entry_lines(ns) } else { Seq::empty() }
}

/// The steps stopped at a failure.
pub open spec fn failed(s: Seq<StepM>) -> bool {
    s.len() > 0 && s.last() is Fail
}

/// The steps that create folder `name` under `parent` with rank
/// `depth` levels above skirmish, then its sub-folders.
pub open spec fn folder_steps(parent: Seq<char>, name: Seq<char>, children: Seq<NodeM>, depth: int) -> Seq<StepM>
    decreases children, 1nat,
{
    let dir = join_path(parent, name);
    seq![StepM::MakeDir(dir)] + match depth_rank(depth) {
        None => seq![StepM::Fail("Blueprint nesting too deep at '"@ + name + "'"@)],
        Some(r) => seq![StepM::Write(join_path(dir, "inventory.bu"@), "#rank: "@ + rank_name(r) + ";\n"@ + entries_block(children))]
            + forest_steps(dir, children, depth - 1),
    }
}

/// The steps for the folders of a forest, in order, stopping at a failure.
pub open spec fn forest_steps(dir: Seq<char>, ns: Seq<NodeM>, depth: int) -> Seq<StepM>
    decreases ns, 0nat,
{
    if ns.len() == 0 {
        Seq::empty()
    } else {
        let before = forest_steps(dir, ns.drop_last(), depth);
        if failed(before) {
            before
        } else {
            before + match ns.last() {
                NodeM::Folder(n, ch) => folder_steps(dir, n, ch, depth),
                NodeM::Entry(_, _) => Seq::empty(),
            }
        }
    }
}

/// The root inventory of a blueprint project.
pub open spec fn root_inventory(r: Rank, lang: Option<Seq<char>>, ns: Seq<NodeM>) -> Seq<char> {
    "#rank: "@ + rank_name(r) + ";\n"@ + (match lang {
        Some(l) => "\n#lang: "@ + l + ";\n"@,
        None => Seq::empty(),
    }) + entries_block(ns)
}

/// The steps after the root folder exists: its inventory, its folders, then
/// the blueprint and the README, unless a folder failed.
pub open spec fn root_steps(root: Seq<char>, ns: Seq<NodeM>, lang: Option<Seq<char>>, src: Seq<char>, r: Rank, d: int) -> Seq<StepM> {
    let body = seq![StepM::Write(join_path(root, "inventory.bu"@), root_inventory(r, lang, ns))] + forest_steps(root, ns, d - 1);
    if failed(body) {
        body
    } else {
        body + seq![
            StepM::Write(join_path(root, "blueprint.bu"@), src),
            StepM::Write(join_path(root, "README.md"@), BULLANG_README@),
        ]
    }
}

/// The scaffolding of a project from a blueprint: the root's rank follows
/// from the depth of the tree; each folder gets an inventory listing its
/// entries; the blueprint itself and a README are written at the root.
pub open spec fn blueprint_plan(parent: Seq<char>, name: Seq<char>, ns: Seq<NodeM>, lang: Option<Seq<char>>, src: Seq<char>, root_exists: bool) -> Result<(Seq<char>, Seq<StepM>), Seq<char>> {
    let root = join_path(parent, name);
    if root_exists {
        Err("'"@ + root + "' already exists."@)
    } else {
        let d = forest_depth(ns);
        Ok((root, seq![StepM::MakeDir(root)] + match depth_rank(d as int) {
            None => seq![StepM::Fail("Blueprint tree is too deep (max 6 levels)"@)],
            Some(r) => root_steps(root, ns, lang, src, r, d as int),
        }))
    }
}

fn comma_joined(ns: &Vec<String>) -> (r: String)
    ensures
        r@ == comma_join(strs_m(ns@)),
{
    let ghost s = strs_m(ns@);
    let mut r = String::new();
    let mut i: usize = 0;
    assert(s.take(0) =~= Seq::<Seq<char>>::empty());
    while i < ns.len()
        invariant
            i <= ns.len(),
            s == strs_m(ns@),
            r@ == comma_join(s.take(i as int)),
        decreases ns.len() - i,
    {
        assert(s.take(i + 1).drop_last() =~= s.take(i as int));
        assert(s.take(i + 1).last() == ns@[i as int]@);
        if i > 0 {
            r.append(", ");
        }
        r.append(ns[i].as_str());
        proof {
            if i == 0 {
                assert(s.take(1)[0] == s[0]);
                assert(r@ =~= comma_join(s.take(1)));
            }
        }
        i = i + 1;
    }
    assert(s.take(ns.len() as int) =~= s);
    r
}

/// The entries part of the inventory of a folder whose children are `nodes`.
fn entries_text(nodes: &Vec<BlueprintNode>) -> (r: String)
    ensures
        r@ == entries_block(nodes_m(nodes@)),
{
    let ghost ns = nodes_m(nodes@);
    proof { lemma_nodes_m(nodes@); }
    let mut lines = String::new();
    let mut any = false;
    let mut i: usize = 0;
    assert(ns.take(0) =~= Seq::<NodeM>::empty());
    while i < nodes.len()
        invariant
            i <= nodes.len(),
            any == (lines@.len() > 0),
            ns == nodes_m(nodes@),
            ns.len() == nodes.len(),
            forall|j: int| 0 <= j < nodes.len() ==> #[trigger] ns[j] == node_m(nodes@[j]),
            lines@ == entry_lines(ns.take(i as int)),
        decreases nodes.len() - i,
    {
        assert(ns.take(i + 1).drop_last() =~= ns.take(i as int));
        assert(ns.take(i + 1).last() == ns[i as int]);
        if let BlueprintNode::Entry { file, functions } = &nodes[i] {
            lines.append(file.as_str());
            lines.append(": ");
            lines.append(comma_joined(functions).as_str());
            lines.append(";\n");
            proof { reveal_strlit(";\n"); }
            any = true;
        }
        i = i + 1;
    }
    assert(ns.take(nodes.len() as int) =~= ns);
    if any {
        let mut r = owned("\n");
        r.append(lines.as_str());
        r
    } else {
        lines
    }
}


/// The rank of a folder `depth` levels above skirmish, for any depth.
fn rank_at_depth(depth: usize) -> (r: Option<Rank>)
    ensures
        r == depth_rank(depth as int),
{
    if depth <= 6 { rank_for_depth(depth as u8) } else { None }
}

/// Appends the steps for the folders of a forest under `dir`, stopping at a
/// failure; the result tells whether it stopped.
#[verifier::loop_isolation(false)]
fn emit_forest(dir: &str, nodes: &Vec<BlueprintNode>, depth: usize, steps: &mut Vec<Step>) -> (stopped: bool)
    requires
        forest_depth(nodes_m(nodes@)) <= depth + 1,
    ensures
        steps_m(final(steps)@) == steps_m(old(steps)@) + forest_steps(dir@, nodes_m(nodes@), depth as int),
        stopped == failed(forest_steps(dir@, nodes_m(nodes@), depth as int)),
    decreases nodes, 0nat,
{
    let ghost ns = nodes_m(nodes@);
    let ghost start = steps_m(steps@);
    proof { lemma_nodes_m(nodes@); }
    let mut stopped = false;
    let mut i: usize = 0;
    assert(ns.take(0) =~= Seq::<NodeM>::empty());
    assert(steps_m(steps@) =~= start + forest_steps(dir@, ns.take(0), depth as int));
    while i < nodes.len()
        invariant
            i <= nodes.len(),
            steps_m(steps@) == start + forest_steps(dir@, ns.take(i as int), depth as int),
            stopped == failed(forest_steps(dir@, ns.take(i as int), depth as int)),
        decreases nodes.len() - i,
    {
        assert(ns.take(i + 1).drop_last() =~= ns.take(i as int));
        assert(ns.take(i + 1).last() == ns[i as int]);
        if !stopped {
            if let BlueprintNode::Folder { name, children } = &nodes[i] {
                proof {
                    lemma_folder_depth(ns, i as int);
                    assert(ns[i as int] == NodeM::Folder(name@, nodes_m(children@)));
                }
                let ghost before = steps_m(steps@);
                stopped = emit_blueprint_folder(dir, name.as_str(), children, depth, steps);
                proof {
                    let fs = folder_steps(dir@, name@, nodes_m(children@), depth as int);
                    assert(steps_m(steps@) =~= start + (forest_steps(dir@, ns.take(i as int), depth as int) + fs));
                    assert(fs.len() > 0);
                    assert((forest_steps(dir@, ns.take(i as int), depth as int) + fs).last() == fs.last());
                }
            } else {
                assert(forest_steps(dir@, ns.take(i + 1), depth as int)
                    =~= forest_steps(dir@, ns.take(i as int), depth as int));
            }
        }
        i = i + 1;
    }
    assert(ns.take(nodes.len() as int) =~= ns);
    stopped
}

/// Appends the steps that create folder `name` under `parent` and its
/// sub-folders; the result tells whether they stopped at a failure.
#[verifier::loop_isolation(false)]
fn emit_blueprint_folder(parent: &str, name: &str, children: &Vec<BlueprintNode>, depth_remaining: usize, steps: &mut Vec<Step>) -> (stopped: bool)
    requires
        forest_depth(nodes_m(children@)) <= depth_remaining,
    ensures
        steps_m(final(steps)@) == steps_m(old(steps)@) + folder_steps(parent@, name@, nodes_m(children@), depth_remaining as int),
        stopped == failed(folder_steps(parent@, name@, nodes_m(children@), depth_remaining as int)),
    decreases children, 1nat,
{
    let ghost start = steps_m(steps@);
    let dir = join(parent, name);
    push_step(steps, Step::MakeDir(owned(dir.as_str())));
    match rank_at_depth(depth_remaining) {
        None => {
            let mut m = owned("Blueprint nesting too deep at '");
            m.append(name);
            m.append("'");
            push_step(steps, Step::Fail(m));
            assert(steps_m(steps@) =~= start + folder_steps(parent@, name@, nodes_m(children@), depth_remaining as int));
            true
        },
        Some(rank) => {
            let mut inv = owned("#rank: ");
            inv.append(rank.name());
            inv.append(";\n");
            inv.append(entries_text(children).as_str());
            push_step(steps, Step::Write(join(dir.as_str(), "inventory.bu"), inv));
            let ghost mid = steps_m(steps@);
            proof {
                // forest_depth is at least one
                if forest_depth(nodes_m(children@)) == 0 {
                    assert(false);
                }
            }
            let stopped = emit_forest(dir.as_str(), children, depth_remaining - 1, steps);
            proof {
                let fs = forest_steps(dir@, nodes_m(children@), depth_remaining - 1);
                assert(steps_m(steps@) =~= start + folder_steps(parent@, name@, nodes_m(children@), depth_remaining as int));
                let whole = folder_steps(parent@, name@, nodes_m(children@), depth_remaining as int);
                if fs.len() > 0 {
                    assert(whole.last() == fs.last());
                } else {
                    assert(whole.last() is Write);
                }
            }
            stopped
        },
    }
}

/// Plans a project from a blueprint under `<parent>/<name>`. `root_exists`
/// tells whether that folder is already on disk, which is an error.
pub fn init_from_blueprint(parent: &str, name: &str, nodes: &Vec<BlueprintNode>, lang: Option<&str>, blueprint_src: &str, root_exists: bool) -> (r: Result<Plan, String>)
    requires
        forest_depth(nodes_m(nodes@)) < usize::MAX,
    ensures
        plan_m(r) == blueprint_plan(parent@, name@, nodes_m(nodes@), opt_str_m(lang), blueprint_src@, root_exists),
{
    let root = join(parent, name);
    if root_exists {
        let mut m = owned("'");
        m.append(root.as_str());
        m.append("' already exists.");
        return Err(m);
    }
    let mut steps: Vec<Step> = Vec::new();
    push_step(&mut steps, Step::MakeDir(owned(root.as_str())));
    let ghost head = steps_m(steps@);
    let max_depth = tree_depth(nodes);
    match rank_at_depth(max_depth) {
        None => {
            push_step(&mut steps, Step::Fail(owned("Blueprint tree is too deep (max 6 levels)")));
            assert(steps_m(steps@) =~= seq![StepM::MakeDir(root@)] + seq![StepM::Fail("Blueprint tree is too deep (max 6 levels)"@)]);
            Ok(Plan { root, steps })
        },
        Some(rank) => {
            emit_root(root.as_str(), nodes, lang, blueprint_src, &rank, max_depth, &mut steps);
            assert(steps_m(steps@) =~= seq![StepM::MakeDir(root@)] + root_steps(root@, nodes_m(nodes@), opt_str_m(lang), blueprint_src@, rank, max_depth as int));
            Ok(Plan { root, steps })
        },
    }
}

/// Appends the steps that follow the creation of the root folder.
fn emit_root(root: &str, nodes: &Vec<BlueprintNode>, lang: Option<&str>, blueprint_src: &str, rank: &Rank, max_depth: usize, steps: &mut Vec<Step>)
    requires
        max_depth == forest_depth(nodes_m(nodes@)),
    ensures
        steps_m(final(steps)@) == steps_m(old(steps)@) + root_steps(root@, nodes_m(nodes@), opt_str_m(lang), blueprint_src@, *rank, max_depth as int),
{
    let ghost start = steps_m(steps@);
    let mut inv = owned("#rank: ");
    inv.append(rank.name());
    inv.append(";\n");
    if let Some(l) = lang {
        inv.append("\n#lang: ");
        inv.append(l);
        inv.append(";\n");
    }
    inv.append(entries_text(nodes).as_str());
    assert(inv@ =~= root_inventory(*rank, opt_str_m(lang), nodes_m(nodes@)));
    let ghost w = StepM::Write(join_path(root@, "inventory.bu"@), inv@);
    push_step(steps, Step::Write(join(root, "inventory.bu"), inv));
    let stopped = emit_forest(root, nodes, max_depth - 1, steps);
    let ghost fs = forest_steps(root@, nodes_m(nodes@), max_depth - 1);
    let ghost body = seq![w] + fs;
    proof {
        assert(steps_m(steps@) =~= start + body);
        if fs.len() > 0 {
            assert(body.last() == fs.last());
        } else {
            assert(body.last() == w);
        }
    }
    if !stopped {
        push_step(steps, Step::Write(join(root, "blueprint.bu"), owned(blueprint_src)));
        push_step(steps, Step::Write(join(root, "README.md"), owned(BULLANG_README)));
        assert(steps_m(steps@) =~= start + (body + seq![
            StepM::Write(join_path(root@, "blueprint.bu"@), blueprint_src@),
            StepM::Write(join_path(root@, "README.md"@), BULLANG_README@),
        ]));
    }
}


// ── Laws ─────────────────────────────────────────────────────────────────────

/// A project of depth 1 to 6 is a chain of that many folders: its root has
/// the rank of that depth, each folder's child has the next rank down, and
/// the chain ends at skirmish.
pub proof fn law_depth_chain(d: nat)
    requires
        1 <= d <= 6,
    ensures
        chain_of(d).len() == d,
        depth_rank(d as int) == Some(chain_of(d)[0]),
        chain_of(d).last() == Rank::Skirmish,
        forall|i: int| 0 <= i < d - 1 ==> rank_child(#[trigger] chain_of(d)[i]) == Some(chain_of(d)[i + 1]),
{
    assert(chain_of(d) =~= all_ranks().subrange(6 - d, 6));
}

/// A blueprint forest is at least one level deep.
pub proof fn law_forest_depth_positive(ns: Seq<NodeM>)
    ensures
        forest_depth(ns) >= 1,
{
}

/// Scaffolding a chain of ranks creates one folder and one inventory per rank.
pub proof fn law_chain_steps_count(dir: Seq<char>, ranks: Seq<Rank>, name: Seq<char>, directives: Seq<char>)
    ensures
        chain_steps(dir, ranks, name, directives).len() == 2 * ranks.len(),
    decreases ranks.len(),
{
    if ranks.len() > 1 {
        law_chain_steps_count(join_path(dir, rank_name(ranks[1]) + "_"@ + name), ranks.skip(1), name, Seq::empty());
    }
}

/// In a blueprint project each folder one level deeper has the next rank
/// down: the rank of depth `d - 1` is the child rank of the rank of depth `d`.
pub proof fn law_depth_one_below(d: int)
    requires
        2 <= d <= 6,
    ensures
        depth_rank(d) is Some,
        rank_child(depth_rank(d).unwrap()) == depth_rank(d - 1),
{
}


// ── Lines a blueprint ignores ────────────────────────────────────────────────

/// A blank line, a line of whitespace, or a `//` comment.
pub open spec fn ignorable_line(l: Seq<char>) -> bool {
    trim(l).len() == 0 || is_comment(trim(l))
}

/// The position of line `x` once a line is inserted at `p`.
pub open spec fn shifted(x: int, p: int) -> int {
    if x >= p { x + 1 } else { x }
}

proof fn lemma_indent_unit_insert(ls: Seq<Seq<char>>, p: int, l: Seq<char>)
    requires
        0 <= p <= ls.len(),
        ignorable_line(l),
    ensures
        indent_unit(ls.insert(p, l)) == indent_unit(ls),
    decreases ls.len(),
{
    let ls2 = ls.insert(p, l);
    if p == 0 {
        assert(ls2[0] == l);
        assert(ls2.skip(1) =~= ls);
        if trim(l).len() > 0 {
            let ts = trim_start(l);
            crate::text::lemma_lead_ws_bound(l);
            crate::text::lemma_trail_ws_bound(ts);
            assert(trim(l) == ts.subrange(0, ts.len() - crate::text::trail_ws(ts)));
            assert(trim(l)[0] == ts[0] && trim(l)[1] == ts[1]);
        }
    } else {
        assert(ls2[0] == ls[0]);
        assert(ls2.skip(1) =~= ls.skip(1).insert(p - 1, l));
        lemma_indent_unit_insert(ls.skip(1), p - 1, l);
    }
}

/// A line inserted at `p` is skipped where the walk reaches it.
proof fn lemma_block_at_insert(ls: Seq<Seq<char>>, p: int, l: Seq<char>, base: nat, unit: nat, acc: Seq<NodeM>)
    requires
        0 <= p <= ls.len(),
        ignorable_line(l),
    ensures
        block(ls.insert(p, l), p, base, unit, acc) == block(ls.insert(p, l), p + 1, base, unit, acc),
{
    assert(ls.insert(p, l)[p] == l);
}

proof fn lemma_block_insert(ls: Seq<Seq<char>>, p: int, l: Seq<char>, i: int, base: nat, unit: nat, acc: Seq<NodeM>)
    requires
        0 <= p <= ls.len(),
        0 <= i,
        ignorable_line(l),
        block(ls, i, base, unit, acc) is Ok,
    ensures
        block(ls, i, base, unit, acc) matches Ok((ns, next))
            && block(ls.insert(p, l), shifted(i, p), base, unit, acc) == Ok::<(Seq<NodeM>, int), Seq<char>>((ns, shifted(next, p))),
    decreases ls.len() - i,
{
    let ls2 = ls.insert(p, l);
    if i < ls.len() {
        assert(ls2[shifted(i, p)] == ls[i]);
        let line = ls[i];
        let t = trim(line);
        if t.len() == 0 || is_comment(t) {
            lemma_block_insert(ls, p, l, i + 1, base, unit, acc);
            if i + 1 == p {
                lemma_block_at_insert(ls, p, l, base, unit, acc);
            }
        } else {
            let ind = indent_bytes(line);
            if ind == base {
                if t.last() == ':' {
                    let name = trim(strip_end(t, ':'));
                    lemma_block_insert(ls, p, l, i + 1, base + unit, unit, Seq::empty());
                    if i + 1 == p {
                        lemma_block_at_insert(ls, p, l, base + unit, unit, Seq::empty());
                    }
                    let r = block(ls, i + 1, base + unit, unit, Seq::empty());
                    let children = r->Ok_0.0;
                    let next = r->Ok_0.1;
                    if i < next <= ls.len() {
                        lemma_block_insert(ls, p, l, next, base, unit, acc.push(NodeM::Folder(name, children)));
                    }
                } else {
                    let entry = strip_end(t, ';');
                    let c = find_char(entry, ':', 0);
                    let file = trim(entry.take(c));
                    lemma_block_insert(ls, p, l, i + 1, base, unit, acc.push(NodeM::Entry(file, fn_list(trim(entry.skip(c + 1))))));
                    if i + 1 == p {
                        lemma_block_at_insert(ls, p, l, base, unit, acc.push(NodeM::Entry(file, fn_list(trim(entry.skip(c + 1))))));
                    }
                }
            }
        }
    } else if i == p {
        lemma_block_at_insert(ls, p, l, base, unit, acc);
    }
}

/// Blank lines, lines of whitespace and `//` comment lines are ignored: a
/// blueprint that reads as some nodes reads as the same nodes with such a
/// line inserted anywhere.
pub proof fn law_blueprint_ignores_blank_and_comment_lines(ls: Seq<Seq<char>>, p: int, l: Seq<char>)
    requires
        0 <= p <= ls.len(),
        ignorable_line(l),
        blueprint_lines(ls) is Ok,
    ensures
        blueprint_lines(ls.insert(p, l)) == blueprint_lines(ls),
{
    lemma_indent_unit_insert(ls, p, l);
    lemma_block_insert(ls, p, l, 0, 0, indent_unit(ls), Seq::empty());
    if p == 0 {
        lemma_block_at_insert(ls, p, l, 0, indent_unit(ls), Seq::empty());
    }
}


// ── An optional `;` on entry lines ───────────────────────────────────────────

/// `l2` is the line `l` with a `;` appended, where `l` is neither blank nor a
/// comment nor a folder line, and has no trailing whitespace.
pub open spec fn with_semicolon(l: Seq<char>, l2: Seq<char>) -> bool {
    &&& l2 == l.push(';')
    &&& crate::text::trail_ws(l) == 0
    &&& trim(l).len() > 0
    &&& !is_comment(trim(l))
    &&& trim(l).last() != ':'
}

proof fn lemma_lead_push(l: Seq<char>, c: char)
    requires
        crate::text::lead_ws(l) < l.len(),
    ensures
        crate::text::lead_ws(l.push(c)) == crate::text::lead_ws(l),
    decreases l.len(),
{
    if l.len() > 0 && crate::text::is_ws(l[0]) {
        assert(l.push(c).drop_first() =~= l.drop_first().push(c));
        lemma_lead_push(l.drop_first(), c);
    }
}

proof fn lemma_semicolon_line(l: Seq<char>, l2: Seq<char>)
    requires
        with_semicolon(l, l2),
    ensures
        indent_bytes(l2) == indent_bytes(l),
        trim(l2) == trim(l).push(';'),
        trim_start(l2) == trim_start(l).push(';'),
        is_comment(trim_start(l2)) == is_comment(trim_start(l)),
        strip_end(trim(l2), ';') == strip_end(trim(l), ';'),
        !is_comment(trim(l2)),
        trim(l2).len() > 0,
        trim(l2).last() != ':',
{
    let lw = crate::text::lead_ws(l);
    crate::text::lemma_lead_ws_bound(l);
    if lw == l.len() {
        assert(trim_start(l) =~= Seq::<char>::empty());
        assert(trim(l) =~= Seq::<char>::empty());
    }
    lemma_lead_push(l, ';');
    assert(l2.take(lw as int) =~= l.take(lw as int));
    let ts = trim_start(l);
    assert(trim_start(l2) =~= ts.push(';'));
    assert(ts.last() == l.last());
    assert(crate::text::trail_ws(ts) == 0);
    assert(trim(l) =~= ts);
    assert(crate::text::trail_ws(ts.push(';')) == 0);
    assert(trim(l2) =~= ts.push(';'));
    assert(ts.push(';').drop_last() =~= ts);
}

proof fn lemma_indent_unit_semi(ls: Seq<Seq<char>>, ls2: Seq<Seq<char>>)
    requires
        ls.len() == ls2.len(),
        forall|k: int| 0 <= k < ls.len() ==> ls2[k] == ls[k] || with_semicolon(#[trigger] ls[k], ls2[k]),
    ensures
        indent_unit(ls2) == indent_unit(ls),
    decreases ls.len(),
{
    if ls.len() > 0 {
        if ls2[0] != ls[0] {
            lemma_semicolon_line(ls[0], ls2[0]);
        }
        assert forall|k: int| 0 <= k < ls.skip(1).len() implies ls2.skip(1)[k] == ls.skip(1)[k]
            || with_semicolon(#[trigger] ls.skip(1)[k], ls2.skip(1)[k]) by {
            assert(ls.skip(1)[k] == ls[k + 1]);
            assert(ls2.skip(1)[k] == ls2[k + 1]);
        }
        lemma_indent_unit_semi(ls.skip(1), ls2.skip(1));
    }
}

proof fn lemma_block_semi(ls: Seq<Seq<char>>, ls2: Seq<Seq<char>>, i: int, base: nat, unit: nat, acc: Seq<NodeM>)
    requires
        ls.len() == ls2.len(),
        forall|k: int| 0 <= k < ls.len() ==> ls2[k] == ls[k] || with_semicolon(#[trigger] ls[k], ls2[k]),
        block(ls, i, base, unit, acc) is Ok,
    ensures
        block(ls2, i, base, unit, acc) == block(ls, i, base, unit, acc),
    decreases ls.len() - i,
{
    if 0 <= i < ls.len() {
        let line = ls[i];
        if ls2[i] != line {
            lemma_semicolon_line(line, ls2[i]);
        }
        let t = trim(line);
        if t.len() == 0 || is_comment(t) {
            lemma_block_semi(ls, ls2, i + 1, base, unit, acc);
        } else {
            let ind = indent_bytes(line);
            if ind == base {
                if t.last() == ':' {
                    let name = trim(strip_end(t, ':'));
                    lemma_block_semi(ls, ls2, i + 1, base + unit, unit, Seq::empty());
                    let r = block(ls, i + 1, base + unit, unit, Seq::empty());
                    let children = r->Ok_0.0;
                    let next = r->Ok_0.1;
                    if i < next <= ls.len() {
                        lemma_block_semi(ls, ls2, next, base, unit, acc.push(NodeM::Folder(name, children)));
                    }
                } else {
                    let entry = strip_end(t, ';');
                    let c = find_char(entry, ':', 0);
                    let file = trim(entry.take(c));
                    lemma_block_semi(ls, ls2, i + 1, base, unit, acc.push(NodeM::Entry(file, fn_list(trim(entry.skip(c + 1))))));
                }
            }
        }
    }
}

/// The `;` that ends an entry line is optional: appending one to entry lines
/// (lines without trailing whitespace) leaves what a blueprint reads as
/// unchanged.
pub proof fn law_blueprint_semicolon_optional(ls: Seq<Seq<char>>, ls2: Seq<Seq<char>>)
    requires
        ls.len() == ls2.len(),
        forall|k: int| 0 <= k < ls.len() ==> ls2[k] == ls[k] || with_semicolon(#[trigger] ls[k], ls2[k]),
        blueprint_lines(ls) is Ok,
    ensures
        blueprint_lines(ls2) == blueprint_lines(ls),
{
    lemma_indent_unit_semi(ls, ls2);
    lemma_block_semi(ls, ls2, 0, 0, indent_unit(ls), Seq::empty());
}


// ── The same laws on the text of a blueprint ─────────────────────────────────

/// Blank lines, lines of whitespace and `//` comment lines are ignored in the
/// text of a blueprint: inserting such a line (ended by a line break, not by
/// `\r`) at the start of any line leaves what an accepted blueprint reads as
/// unchanged.
pub proof fn law_blueprint_text_ignores_blank_and_comment_lines(a: Seq<char>, b: Seq<char>, l: Seq<char>)
    requires
        a.len() == 0 || a.last() == '\n',
        !l.contains('\n'),
        l.len() == 0 || l.last() != '\r',
        ignorable_line(l),
        blueprint_of(a + b) is Ok,
    ensures
        blueprint_of(a + (l + seq!['\n'] + b)) == blueprint_of(a + b),
{
    let nl = seq!['\n'] + b;
    crate::text::lemma_lines_concat(a, b);
    crate::text::lemma_lines_concat(a, l + nl);
    assert(l + seq!['\n'] + b =~= l + nl);
    crate::text::lemma_lines_line(l, nl);
    assert(nl.skip(1) =~= b);
    assert(crate::text::strip_cr(l) == l);
    let ls = lines_of(a + b);
    let p = lines_of(a).len() as int;
    assert(lines_of(a + (l + nl)) =~= ls.insert(p, l));
    law_blueprint_ignores_blank_and_comment_lines(ls, p, l);
}

/// The `;` that ends an entry line is optional in the text of a blueprint:
/// appending one to an entry line (a line without trailing whitespace, not
/// ending in `:`) leaves what an accepted blueprint reads as unchanged.
pub proof fn law_blueprint_text_semicolon_optional(a: Seq<char>, l: Seq<char>, b: Seq<char>)
    requires
        a.len() == 0 || a.last() == '\n',
        b.len() == 0 || b[0] == '\n',
        !l.contains('\n'),
        with_semicolon(l, l.push(';')),
        blueprint_of(a + (l + b)) is Ok,
    ensures
        blueprint_of(a + (l.push(';') + b)) == blueprint_of(a + (l + b)),
{
    let l2 = l.push(';');
    crate::text::lemma_lead_ws_bound(l);
    assert(l.len() > 0) by {
        if l.len() == 0 {
            assert(trim_start(l) =~= Seq::<char>::empty());
            assert(trim(l) =~= Seq::<char>::empty());
        }
    }
    assert(l.last() != '\r');
    assert(!l2.contains('\n')) by {
        if l2.contains('\n') {
            let k = choose|k: int| 0 <= k < l2.len() && l2[k] == '\n';
            assert(l[k] == '\n');
        }
    }
    crate::text::lemma_lines_concat(a, l + b);
    crate::text::lemma_lines_concat(a, l2 + b);
    crate::text::lemma_lines_line(l, b);
    crate::text::lemma_lines_line(l2, b);
    let ls = lines_of(a + (l + b));
    let ls2 = lines_of(a + (l2 + b));
    let p = lines_of(a).len() as int;
    assert(ls2 =~= ls.update(p, l2));
    assert(ls[p] == l);
    assert forall|k: int| 0 <= k < ls.len() implies ls2[k] == ls[k] || with_semicolon(#[trigger] ls[k], ls2[k]) by {
        if k == p {
            assert(ls2[k] == l2);
        }
    }
    law_blueprint_semicolon_optional(ls, ls2);
}

} // verus!
