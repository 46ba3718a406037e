//! The Bullang syntax tree, its enumerations and their textual forms.

use vstd::prelude::*;
use crate::model::{arg_m, args_m, atom_m, expr_m, exprs_m, lemma_exprs_m};
use crate::text::{decimal, owned, str_eq, usize_to_string};

verus! {

// ── Source location ──────────────────────────────────────────────────────────

/// A line/column position in a source file (both counted from 1).
#[derive(Debug, Clone, Copy, PartialEq, Eq, Structural)]
pub struct Span {
    pub line: usize,
    pub col: usize,
}

impl Span {
    pub fn new(line: usize, col: usize) -> (s: Self)
        ensures
            s.line == line,
            s.col == col,
    {
        Self { line, col }
    }
}

// ── Backend ──────────────────────────────────────────────────────────────────

/// A code-generation target.
#[derive(Debug, Clone)]
pub enum Backend {
    Rust,
    Python,
    C,
    Cpp,
    Go,
    /// An unrecognised backend name written in an escape block.
    Unknown(String),
}

/// The backend that a file extension selects.
pub open spec fn backend_for_ext(e: Seq<char>) -> Option<Backend> {
    if e == "rs"@ {
        Some(Backend::Rust)
    } else if e == "py"@ {
        Some(Backend::Python)
    } else if e == "c"@ {
        Some(Backend::C)
    } else if e == "cpp"@ || e == "cc"@ || e == "cxx"@ {
        Some(Backend::Cpp)
    } else if e == "go"@ {
        Some(Backend::Go)
    } else {
        None
    }
}

pub open spec fn backend_name(b: Backend) -> Seq<char> {
    match b {
        Backend::Rust => "rust"@,
        Backend::Python => "python"@,
        Backend::C => "c"@,
        Backend::Cpp => "cpp"@,
        Backend::Go => "go"@,
        Backend::Unknown(_) => "unknown"@,
    }
}

pub open spec fn backend_ext(b: Backend) -> Seq<char> {
    match b {
        Backend::Rust => "rs"@,
        Backend::Python => "py"@,
        Backend::C => "c"@,
        Backend::Cpp => "cpp"@,
        Backend::Go => "go"@,
        Backend::Unknown(_) => "?"@,
    }
}

pub open spec fn backend_keyword(b: Backend) -> Seq<char> {
    match b {
        Backend::Unknown(s) => s@,
        _ => backend_name(b),
    }
}

impl Backend {
    pub fn from_ext(ext: &str) -> (r: Option<Self>)
        ensures
            r == backend_for_ext(ext@),
    {
        if str_eq(ext, "rs") {
            Some(Backend::Rust)
        } else if str_eq(ext, "py") {
            Some(Backend::Python)
        } else if str_eq(ext, "c") {
            Some(Backend::C)
        } else if str_eq(ext, "cpp") || str_eq(ext, "cc") || str_eq(ext, "cxx") {
            Some(Backend::Cpp)
        } else if str_eq(ext, "go") {
            Some(Backend::Go)
        } else {
            None
        }
    }

    pub fn name(&self) -> (r: &'static str)
        ensures
            r@ == backend_name(*self),
    {
        match self {
            Backend::Rust => "rust",
            Backend::Python => "python",
            Backend::C => "c",
            Backend::Cpp => "cpp",
            Backend::Go => "go",
            Backend::Unknown(_) => "unknown",
        }
    }

    pub fn ext(&self) -> (r: &'static str)
        ensures
            r@ == backend_ext(*self),
    {
        match self {
            Backend::Rust => "rs",
            Backend::Python => "py",
            Backend::C => "c",
            Backend::Cpp => "cpp",
            Backend::Go => "go",
            Backend::Unknown(_) => "?",
        }
    }

    pub fn escape_keyword(&self) -> (r: String)
        ensures
            r@ == backend_keyword(*self),
    {
        match self {
            Backend::Rust => owned("rust"),
            Backend::Python => owned("python"),
            Backend::C => owned("c"),
            Backend::Cpp => owned("cpp"),
            Backend::Go => owned("go"),
            Backend::Unknown(s) => s.clone(),
        }
    }

    /// A copy of this backend.
    pub fn duplicate(&self) -> (r: Self)
        ensures
            r == *self,
    {
        match self {
            Backend::Rust => Backend::Rust,
            Backend::Python => Backend::Python,
            Backend::C => Backend::C,
            Backend::Cpp => Backend::Cpp,
            Backend::Go => Backend::Go,
            Backend::Unknown(s) => Backend::Unknown(s.clone()),
        }
    }
}

// ── Rank ─────────────────────────────────────────────────────────────────────

/// The level of a folder in the project hierarchy, lowest first.
#[derive(Debug, Clone, Copy, PartialEq, Eq, Structural, PartialOrd, Ord)]
pub enum Rank {
    Skirmish,
    Tactic,
    Strategy,
    Battle,
    Theater,
    War,
}

/// Height of a rank above skirmish (skirmish is 0, war is 5).
pub open spec fn rank_level(r: Rank) -> nat {
    match r {
        Rank::Skirmish => 0,
        Rank::Tactic => 1,
        Rank::Strategy => 2,
        Rank::Battle => 3,
        Rank::Theater => 4,
        Rank::War => 5,
    }
}

pub open spec fn rank_name(r: Rank) -> Seq<char> {
    match r {
        Rank::War => "war"@,
        Rank::Theater => "theater"@,
        Rank::Battle => "battle"@,
        Rank::Strategy => "strategy"@,
        Rank::Tactic => "tactic"@,
        Rank::Skirmish => "skirmish"@,
    }
}

/// A rank's name is a non-empty ASCII word.
pub proof fn lemma_rank_name_ascii(r: Rank)
    ensures
        rank_name(r).len() > 0,
        (rank_name(r)[0] as u32) < 128,
{
    reveal_strlit("war");
    reveal_strlit("theater");
    reveal_strlit("battle");
    reveal_strlit("strategy");
    reveal_strlit("tactic");
    reveal_strlit("skirmish");
}

pub open spec fn rank_for_name(s: Seq<char>) -> Option<Rank> {
    if s == "war"@ {
        Some(Rank::War)
    } else if s == "theater"@ {
        Some(Rank::Theater)
    } else if s == "battle"@ {
        Some(Rank::Battle)
    } else if s == "strategy"@ {
        Some(Rank::Strategy)
    } else if s == "tactic"@ {
        Some(Rank::Tactic)
    } else if s == "skirmish"@ {
        Some(Rank::Skirmish)
    } else {
        None
    }
}

pub open spec fn rank_child(r: Rank) -> Option<Rank> {
    match r {
        Rank::War => Some(Rank::Theater),
        Rank::Theater => Some(Rank::Battle),
        Rank::Battle => Some(Rank::Strategy),
        Rank::Strategy => Some(Rank::Tactic),
        Rank::Tactic => Some(Rank::Skirmish),
        Rank::Skirmish => None,
    }
}

impl Rank {
    pub fn from_str(s: &str) -> (r: Option<Self>)
        ensures
            r == rank_for_name(s@),
    {
        if str_eq(s, "war") {
            Some(Rank::War)
        } else if str_eq(s, "theater") {
            Some(Rank::Theater)
        } else if str_eq(s, "battle") {
            Some(Rank::Battle)
        } else if str_eq(s, "strategy") {
            Some(Rank::Strategy)
        } else if str_eq(s, "tactic") {
            Some(Rank::Tactic)
        } else if str_eq(s, "skirmish") {
            Some(Rank::Skirmish)
        } else {
            None
        }
    }

    pub fn child_rank(&self) -> (r: Option<Rank>)
        ensures
            r == rank_child(*self),
    {
        match self {
            Rank::War => Some(Rank::Theater),
            Rank::Theater => Some(Rank::Battle),
            Rank::Battle => Some(Rank::Strategy),
            Rank::Strategy => Some(Rank::Tactic),
            Rank::Tactic => Some(Rank::Skirmish),
            Rank::Skirmish => None,
        }
    }

    pub fn name(&self) -> (r: &'static str)
        ensures
            r@ == rank_name(*self),
    {
        match self {
            Rank::War => "war",
            Rank::Theater => "theater",
            Rank::Battle => "battle",
            Rank::Strategy => "strategy",
            Rank::Tactic => "tactic",
            Rank::Skirmish => "skirmish",
        }
    }

    pub fn has_own_files(&self) -> (r: bool)
        ensures
            r == (*self != Rank::War),
    {
        *self != Rank::War
    }

    pub fn has_sub_folders(&self) -> (r: bool)
        ensures
            r == (*self != Rank::Skirmish),
    {
        *self != Rank::Skirmish
    }
}

// ── Type system ──────────────────────────────────────────────────────────────

/// A Bullang type as written in a signature.
#[derive(Debug)]
pub enum BuType {
    Named(String),
    Tuple(Vec<BuType>),
    Array(Box<BuType>, usize),
    Unknown,
}

/// The mathematical value of a type: what `==` on `BuType` compares.
pub enum TyModel {
    Named(Seq<char>),
    Tuple(Seq<TyModel>),
    Array(Box<TyModel>, nat),
    Unknown,
}

pub open spec fn ty_model(t: BuType) -> TyModel
    decreases t,
{
    match t {
        BuType::Named(s) => TyModel::Named(s@),
        BuType::Tuple(v) => TyModel::Tuple(tys_model(v@)),
        BuType::Array(b, n) => TyModel::Array(Box::new(ty_model(*b)), n as nat),
        BuType::Unknown => TyModel::Unknown,
    }
}

pub open spec fn tys_model(s: Seq<BuType>) -> Seq<TyModel>
    decreases s,
{
    if s.len() == 0 {
        Seq::empty()
    } else {
        tys_model(s.drop_last()).push(ty_model(s.last()))
    }
}

pub proof fn lemma_tys_model(s: Seq<BuType>)
    ensures
        tys_model(s).len() == s.len(),
        forall|i: int| 0 <= i < s.len() ==> #[trigger] tys_model(s)[i] == ty_model(s[i]),
    decreases s.len(),
{
    if s.len() > 0 {
        lemma_tys_model(s.drop_last());
        assert forall|i: int| 0 <= i < s.len() implies #[trigger] tys_model(s)[i] == ty_model(s[i]) by {
            if i < s.len() - 1 {
                assert(s.drop_last()[i] == s[i]);
            }
        }
    }
}

/// The textual form of a type (what `to_rust` renders).
pub open spec fn ty_text(t: BuType) -> Seq<char>
    decreases t,
{
    match t {
        BuType::Named(s) => s@,
        BuType::Tuple(v) => "Tuple["@ + tys_text(v@) + "]"@,
        BuType::Array(b, n) => "["@ + ty_text(*b) + "; "@ + decimal(n as nat) + "]"@,
        BuType::Unknown => "_"@,
    }
}

/// The textual forms of a list of types, joined by `", "`.
pub open spec fn tys_text(s: Seq<BuType>) -> Seq<char>
    decreases s,
{
    if s.len() == 0 {
        Seq::empty()
    } else if s.len() == 1 {
        ty_text(s[0])
    } else {
        tys_text(s.drop_last()) + ", "@ + ty_text(s.last())
    }
}

/// The textual form of a type's value; agrees with `ty_text`.
pub open spec fn tm_text(t: TyModel) -> Seq<char>
    decreases t,
{
    match t {
        TyModel::Named(s) => s,
        TyModel::Tuple(v) => "Tuple["@ + tms_text(v) + "]"@,
        TyModel::Array(b, n) => "["@ + tm_text(*b) + "; "@ + decimal(n) + "]"@,
        TyModel::Unknown => "_"@,
    }
}

pub open spec fn tms_text(s: Seq<TyModel>) -> Seq<char>
    decreases s,
{
    if s.len() == 0 {
        Seq::empty()
    } else if s.len() == 1 {
        tm_text(s[0])
    } else {
        tms_text(s.drop_last()) + ", "@ + tm_text(s.last())
    }
}

pub proof fn lemma_ty_text(t: BuType)
    ensures
        ty_text(t) == tm_text(ty_model(t)),
    decreases t,
{
    match t {
        BuType::Tuple(v) => lemma_tys_text(v@),
        BuType::Array(b, _) => lemma_ty_text(*b),
        _ => {},
    }
}

pub proof fn lemma_tys_text(s: Seq<BuType>)
    ensures
        tys_text(s) == tms_text(tys_model(s)),
    decreases s,
{
    lemma_tys_model(s);
    if s.len() == 1 {
        lemma_ty_text(s[0]);
    } else if s.len() > 1 {
        lemma_tys_text(s.drop_last());
        lemma_ty_text(s.last());
        assert(tys_model(s).drop_last() =~= tys_model(s.drop_last()));
    }
}

/// A numeric type's value.
pub open spec fn tm_numeric(t: TyModel) -> bool {
    match t {
        TyModel::Named(s) => numeric_name(s),
        _ => false,
    }
}

/// The primitive numeric type names.
pub open spec fn numeric_name(s: Seq<char>) -> bool {
    ||| s == "i8"@ || s == "i16"@ || s == "i32"@ || s == "i64"@ || s == "i128"@ || s == "isize"@
    ||| s == "u8"@ || s == "u16"@ || s == "u32"@ || s == "u64"@ || s == "u128"@ || s == "usize"@
    ||| s == "f32"@ || s == "f64"@
}

pub open spec fn ty_is_numeric(t: BuType) -> bool {
    match t {
        BuType::Named(s) => numeric_name(s@),
        _ => false,
    }
}

impl BuType {
    #[verifier::loop_isolation(false)]
    pub fn to_rust(&self) -> (r: String)
        ensures
            r@ == ty_text(*self),
        decreases self,
    {
        match self {
            BuType::Named(s) => s.clone(),
            BuType::Tuple(inner) => {
                let mut out = owned("Tuple[");
                let mut i: usize = 0;
                while i < inner.len()
                    invariant
                        i <= inner.len(),
                        out@ == "Tuple["@ + tys_text(inner@.take(i as int)),
                    decreases inner.len() - i,
                {
                    assert(inner@.take(i + 1).drop_last() =~= inner@.take(i as int));
                    if i > 0 {
                        out.append(", ");
                    }
                    let piece = inner[i].to_rust();
                    out.append(piece.as_str());
                    proof {
                        if i == 0 {
                            assert(inner@.take(1)[0] == inner@[0]);
                        }
                        assert(inner@.take(i + 1).last() == inner@[i as int]);
                    }
                    i = i + 1;
                }
                assert(inner@.take(inner.len() as int) =~= inner@);
                out.append("]");
                out
            }
            BuType::Array(ty, n) => {
                let mut out = owned("[");
                let piece = ty.to_rust();
                out.append(piece.as_str());
                out.append("; ");
                let num = usize_to_string(*n);
                out.append(num.as_str());
                out.append("]");
                out
            }
            BuType::Unknown => owned("_"),
        }
    }

    pub fn is_numeric(&self) -> (r: bool)
        ensures
            r == ty_is_numeric(*self),
    {
        match self {
            BuType::Named(s) => {
                let s = s.as_str();
                str_eq(s, "i8") || str_eq(s, "i16") || str_eq(s, "i32") || str_eq(s, "i64")
                    || str_eq(s, "i128") || str_eq(s, "isize") || str_eq(s, "u8") || str_eq(s, "u16")
                    || str_eq(s, "u32") || str_eq(s, "u64") || str_eq(s, "u128") || str_eq(s, "usize")
                    || str_eq(s, "f32") || str_eq(s, "f64")
            }
            _ => false,
        }
    }

    /// A copy of this type.
    #[verifier::loop_isolation(false)]
    pub fn duplicate(&self) -> (r: Self)
        ensures
            ty_model(r) == ty_model(*self),
        decreases self,
    {
        match self {
            BuType::Named(s) => BuType::Named(s.clone()),
            BuType::Tuple(inner) => {
                let mut v: Vec<BuType> = Vec::new();
                let mut i: usize = 0;
                proof { lemma_tys_model(inner@); }
                while i < inner.len()
                    invariant
                        i <= inner.len(),
                        v.len() == i,
                        forall|j: int| 0 <= j < i ==> ty_model(#[trigger] v@[j]) == ty_model(inner@[j]),
                    decreases inner.len() - i,
                {
                    let t = inner[i].duplicate();
                    v.push(t);
                    i = i + 1;
                }
                proof {
                    lemma_tys_model(v@);
                    assert(tys_model(v@) =~= tys_model(inner@));
                }
                BuType::Tuple(v)
            }
            BuType::Array(t, n) => BuType::Array(Box::new(t.duplicate()), *n),
            BuType::Unknown => BuType::Unknown,
        }
    }

    /// Structural equality: the same name, the same parts, the same length.
    #[verifier::loop_isolation(false)]
    pub fn same(&self, other: &BuType) -> (r: bool)
        ensures
            r == (ty_model(*self) == ty_model(*other)),
        decreases self,
    {
        match (self, other) {
            (BuType::Named(a), BuType::Named(b)) => {
                let r = *a == *b;
                assert(r == (ty_model(*self) == ty_model(*other)));
                r
            }
            (BuType::Tuple(a), BuType::Tuple(b)) => {
                proof {
                    lemma_tys_model(a@);
                    lemma_tys_model(b@);
                }
                if a.len() != b.len() {
                    assert(tys_model(a@).len() != tys_model(b@).len());
                    assert(ty_model(*self) != ty_model(*other));
                    return false;
                }
                let mut i: usize = 0;
                while i < a.len()
                    invariant
                        i <= a.len(),
                        a.len() == b.len(),
                        tys_model(a@).len() == a.len(),
                        tys_model(b@).len() == b.len(),
                        forall|j: int| 0 <= j < a.len() ==> #[trigger] tys_model(a@)[j] == ty_model(a@[j]),
                        forall|j: int| 0 <= j < b.len() ==> #[trigger] tys_model(b@)[j] == ty_model(b@[j]),
                        forall|j: int| 0 <= j < i ==> ty_model(#[trigger] a@[j]) == ty_model(b@[j]),
                    decreases a.len() - i,
                {
                    if !a[i].same(&b[i]) {
                        assert(tys_model(a@)[i as int] != tys_model(b@)[i as int]);
                        return false;
                    }
                    i = i + 1;
                }
                assert(tys_model(a@) =~= tys_model(b@));
                assert(ty_model(*self) == ty_model(*other));
                true
            }
            (BuType::Array(a, n), BuType::Array(b, m)) => {
                let r = *n == *m && a.same(b);
                assert(r == (ty_model(*self) == ty_model(*other)));
                r
            }
            (BuType::Unknown, BuType::Unknown) => true,
            _ => {
                assert(ty_model(*self) != ty_model(*other));
                false
            }
        }
    }
}

impl Clone for BuType {
    fn clone(&self) -> (r: Self)
        ensures
            ty_model(r) == ty_model(*self),
    {
        self.duplicate()
    }
}

// ── Signatures ───────────────────────────────────────────────────────────────

/// The parameter and return types of a function.
#[derive(Debug, Clone)]
pub struct BulletSig {
    pub params: Vec<BuType>,
    pub returns: BuType,
}

// ── Expressions ──────────────────────────────────────────────────────────────

#[derive(Debug, Clone)]
pub enum CallArg {
    Value(String),
    BulletRef(String),
}

#[derive(Debug, Clone)]
pub enum Atom {
    Ident(String),
    Integer(i64),
    /// A plain string literal with no interpolation: `"hello"`
    StringLit(String),
    /// A string template with `{var}` placeholders, quotes stripped.
    Interp(String),
    Call { name: String, args: Vec<CallArg> },
}

#[derive(Debug, Clone)]
pub struct BinExpr {
    pub lhs: Atom,
    pub op: String,
    pub rhs: Atom,
}

#[derive(Debug)]
pub enum Expr {
    Atom(Atom),
    BinOp(BinExpr),
    Tuple(Vec<Expr>),
}

impl CallArg {
    /// A copy of this argument.
    pub fn duplicate(&self) -> (r: Self)
        ensures
            arg_m(r) == arg_m(*self),
    {
        match self {
            CallArg::Value(s) => CallArg::Value(owned(s.as_str())),
            CallArg::BulletRef(s) => CallArg::BulletRef(owned(s.as_str())),
        }
    }
}

impl Atom {
    /// A copy of this operand.
    pub fn duplicate(&self) -> (r: Self)
        ensures
            atom_m(r) == atom_m(*self),
    {
        match self {
            Atom::Ident(s) => Atom::Ident(owned(s.as_str())),
            Atom::Integer(n) => Atom::Integer(*n),
            Atom::StringLit(s) => Atom::StringLit(owned(s.as_str())),
            Atom::Interp(s) => Atom::Interp(owned(s.as_str())),
            Atom::Call { name, args } => {
                let mut v: Vec<CallArg> = Vec::new();
                let mut i: usize = 0;
                while i < args.len()
                    invariant
                        i <= args.len(),
                        v.len() == i,
                        forall|j: int| 0 <= j < i ==> arg_m(#[trigger] v@[j]) == arg_m(args@[j]),
                    decreases args.len() - i,
                {
                    v.push(args[i].duplicate());
                    i = i + 1;
                }
                assert(args_m(v@) =~= args_m(args@));
                Atom::Call { name: owned(name.as_str()), args: v }
            },
        }
    }
}

impl Expr {
    /// A copy of this expression.
    #[verifier::loop_isolation(false)]
    pub fn duplicate(&self) -> (r: Self)
        ensures
            expr_m(r) == expr_m(*self),
        decreases self,
    {
        match self {
            Expr::Atom(a) => Expr::Atom(a.duplicate()),
            Expr::BinOp(b) => Expr::BinOp(BinExpr { lhs: b.lhs.duplicate(), op: owned(b.op.as_str()), rhs: b.rhs.duplicate() }),
            Expr::Tuple(es) => {
                let mut v: Vec<Expr> = Vec::new();
                let mut i: usize = 0;
                while i < es.len()
                    invariant
                        i <= es.len(),
                        v.len() == i,
                        forall|j: int| 0 <= j < i ==> expr_m(#[trigger] v@[j]) == expr_m(es@[j]),
                    decreases es.len() - i,
                {
                    let e = es[i].duplicate();
                    v.push(e);
                    i = i + 1;
                }
                proof {
                    lemma_exprs_m(v@);
                    lemma_exprs_m(es@);
                }
                assert(exprs_m(v@) =~= exprs_m(es@));
                Expr::Tuple(v)
            }
        }
    }
}

impl Clone for Expr {
    fn clone(&self) -> (r: Self)
        ensures
            expr_m(r) == expr_m(*self),
    {
        self.duplicate()
    }
}

// ── Pipe ─────────────────────────────────────────────────────────────────────

/// One statement of a function body: `(inputs) : expr -> {binding};`
#[derive(Debug, Clone)]
pub struct Pipe {
    pub inputs: Vec<String>,
    pub expr: Expr,
    pub binding: String,
    pub span: Span,
}

// ── Bullet body ──────────────────────────────────────────────────────────────

#[derive(Debug, Clone)]
pub enum BulletBody {
    /// Pure Bullang pipe chain.
    Pipes(Vec<Pipe>),
    /// Verbatim code block for a specific backend (`@rust ... @end`).
    Native { backend: Backend, code: String },
    /// Reference to a stdlib builtin (`builtin::name`).
    Builtin(String),
}

// ── Declarations ─────────────────────────────────────────────────────────────

#[derive(Debug, Clone)]
pub struct OutputDecl {
    pub name: String,
    pub ty: BuType,
}

#[derive(Debug, Clone)]
pub struct Param {
    pub name: String,
    pub ty: BuType,
}

#[derive(Debug, Clone)]
pub struct StructField {
    pub name: String,
    pub ty: BuType,
}

/// A struct type definition. Structs are always public.
#[derive(Debug, Clone)]
pub struct StructDef {
    pub name: String,
    pub fields: Vec<StructField>,
}

/// A single function. All bullets are public.
#[derive(Debug, Clone)]
pub struct Bullet {
    pub name: String,
    pub params: Vec<Param>,
    pub output: OutputDecl,
    pub body: BulletBody,
    pub span: Span,
    /// True when the function is annotated with `#test`; only `bullang test`
    /// compiles such a function.
    pub is_test: bool,
}

/// One line in inventory.bu: `filename : fn1, fn2, fn3;`
#[derive(Debug, Clone)]
pub struct InventoryEntry {
    pub file: String,
    pub functions: Vec<String>,
}

/// A source .bu file: only function declarations.
#[derive(Debug, Clone)]
pub struct SourceFile {
    pub bullets: Vec<Bullet>,
}

/// An inventory.bu file: rank, directives, struct definitions and file
/// manifest. The grammar reads no struct definition, so `structs` of a parsed
/// inventory is always empty.
#[derive(Debug, Clone)]
pub struct InventoryFile {
    pub rank: Rank,
    pub lang: Option<Backend>,
    pub libs: Vec<String>,
    pub structs: Vec<StructDef>,
    pub entries: Vec<InventoryEntry>,
}

#[derive(Debug, Clone)]
pub enum BuFile {
    Source(SourceFile),
    Inventory(InventoryFile),
}


// ── Laws ─────────────────────────────────────────────────────────────────────

/// A rank's name reads back as the same rank.
pub proof fn law_rank_name_round_trip(r: Rank)
    ensures
        rank_for_name(rank_name(r)) == Some(r),
{
    reveal_strlit("war");
    reveal_strlit("theater");
    reveal_strlit("battle");
    reveal_strlit("strategy");
    reveal_strlit("tactic");
    reveal_strlit("skirmish");
    let n = rank_name(r);
    if r != Rank::War {
        assert(n != "war"@) by { assert(n.len() != 3 || n[0] != 'w'); }
    }
    if r != Rank::War && r != Rank::Theater {
        assert(n != "theater"@) by { assert(n.len() != 7 || n[0] != 't'); }
    }
    if r == Rank::Strategy || r == Rank::Tactic || r == Rank::Skirmish {
        assert(n != "battle"@) by { assert(n.len() != 6 || n[0] != 'b'); }
    }
    if r == Rank::Tactic || r == Rank::Skirmish {
        assert(n != "strategy"@) by { assert(n.len() != 8 || n[1] != 't'); }
    }
    if r == Rank::Skirmish {
        assert(n != "tactic"@) by { assert(n.len() != 6); }
    }
}

/// The child rank of a folder is exactly one level below it; only skirmish,
/// the lowest rank, has none.
pub proof fn law_child_rank_one_level_down(r: Rank)
    ensures
        rank_child(r) matches Some(c) ==> rank_level(c) + 1 == rank_level(r),
        rank_child(r) is None <==> r == Rank::Skirmish,
{
}

/// The extension of a known backend names that backend again.
pub proof fn law_backend_ext_round_trip(b: Backend)
    requires
        !(b is Unknown),
    ensures
        backend_for_ext(backend_ext(b)) == Some(b),
{
    reveal_strlit("rs");
    reveal_strlit("py");
    reveal_strlit("c");
    reveal_strlit("cpp");
    reveal_strlit("cc");
    reveal_strlit("cxx");
    reveal_strlit("go");
    let e = backend_ext(b);
    if b != Backend::Rust {
        assert(e != "rs"@) by { assert(e.len() != 2 || e[0] != 'r'); }
    }
    if b != Backend::Rust && b != Backend::Python {
        assert(e != "py"@) by { assert(e.len() != 2 || e[0] != 'p'); }
    }
    if b == Backend::Cpp || b == Backend::Go {
        assert(e != "c"@) by { assert(e.len() != 1); }
    }
    if b == Backend::Go {
        assert(e != "cpp"@) by { assert(e.len() != 3); }
        assert(e != "cc"@) by { assert(e[0] != 'c'); }
        assert(e != "cxx"@) by { assert(e.len() != 3); }
    }
}

} // verus!
