//! Mathematical values of the syntax tree: what a tree holds, with its strings
//! taken as character sequences. Contracts of the parser, the checkers and the
//! emitters are stated over these values.

use vstd::prelude::*;
use crate::ast::{
    Atom, Backend, BuFile, BuType, Bullet, BulletBody, CallArg, Expr, InventoryEntry, InventoryFile,
    Param, Pipe, Rank, SourceFile, TyModel, ty_model, tys_model,
};

verus! {

pub enum BackendM {
    Rust,
    Python,
    C,
    Cpp,
    Go,
    Unknown(Seq<char>),
}

pub open spec fn backend_m(b: Backend) -> BackendM {
    match b {
        Backend::Rust => BackendM::Rust,
        Backend::Python => BackendM::Python,
        Backend::C => BackendM::C,
        Backend::Cpp => BackendM::Cpp,
        Backend::Go => BackendM::Go,
        Backend::Unknown(s) => BackendM::Unknown(s@),
    }
}

pub enum ArgM {
    Value(Seq<char>),
    Ref(Seq<char>),
}

pub open spec fn arg_m(a: CallArg) -> ArgM {
    match a {
        CallArg::Value(s) => ArgM::Value(s@),
        CallArg::BulletRef(s) => ArgM::Ref(s@),
    }
}

pub open spec fn args_m(s: Seq<CallArg>) -> Seq<ArgM> {
    s.map_values(|a: CallArg| arg_m(a))
}

pub enum AtomM {
    Ident(Seq<char>),
    Integer(int),
    Str(Seq<char>),
    Interp(Seq<char>),
    Call(Seq<char>, Seq<ArgM>),
}

pub open spec fn atom_m(a: Atom) -> AtomM {
    match a {
        Atom::Ident(s) => AtomM::Ident(s@),
        Atom::Integer(n) => AtomM::Integer(n as int),
        Atom::StringLit(s) => AtomM::Str(s@),
        Atom::Interp(s) => AtomM::Interp(s@),
        Atom::Call { name, args } => AtomM::Call(name@, args_m(args@)),
    }
}

pub enum ExprM {
    Atom(AtomM),
    Bin(AtomM, Seq<char>, AtomM),
    Tuple(Seq<ExprM>),
}

pub open spec fn expr_m(e: Expr) -> ExprM
    decreases e,
{
    match e {
        Expr::Atom(a) => ExprM::Atom(atom_m(a)),
        Expr::BinOp(b) => ExprM::Bin(atom_m(b.lhs), b.op@, atom_m(b.rhs)),
        Expr::Tuple(v) => ExprM::Tuple(exprs_m(v@)),
    }
}

pub open spec fn exprs_m(s: Seq<Expr>) -> Seq<ExprM>
    decreases s,
{
    if s.len() == 0 {
        Seq::empty()
    } else {
        exprs_m(s.drop_last()).push(expr_m(s.last()))
    }
}

pub proof fn lemma_exprs_m(s: Seq<Expr>)
    ensures
        exprs_m(s).len() == s.len(),
        forall|i: int| 0 <= i < s.len() ==> #[trigger] exprs_m(s)[i] == expr_m(s[i]),
    decreases s.len(),
{
    if s.len() > 0 {
        lemma_exprs_m(s.drop_last());
        assert forall|i: int| 0 <= i < s.len() implies #[trigger] exprs_m(s)[i] == expr_m(s[i]) by {
            if i < s.len() - 1 {
                assert(s.drop_last()[i] == s[i]);
            }
        }
    }
}

pub open spec fn strs_m(s: Seq<String>) -> Seq<Seq<char>> {
    s.map_values(|x: String| x@)
}

pub struct PipeM {
    pub inputs: Seq<Seq<char>>,
    pub expr: ExprM,
    pub binding: Seq<char>,
    pub line: nat,
    pub col: nat,
}

pub open spec fn pipe_m(p: Pipe) -> PipeM {
    PipeM {
        inputs: strs_m(p.inputs@),
        expr: expr_m(p.expr),
        binding: p.binding@,
        line: p.span.line as nat,
        col: p.span.col as nat,
    }
}

pub open spec fn pipes_m(s: Seq<Pipe>) -> Seq<PipeM> {
    s.map_values(|p: Pipe| pipe_m(p))
}

pub enum BodyM {
    Pipes(Seq<PipeM>),
    Native(BackendM, Seq<char>),
    Builtin(Seq<char>),
}

pub open spec fn body_m(b: BulletBody) -> BodyM {
    match b {
        BulletBody::Pipes(v) => BodyM::Pipes(pipes_m(v@)),
        BulletBody::Native { backend, code } => BodyM::Native(backend_m(backend), code@),
        BulletBody::Builtin(s) => BodyM::Builtin(s@),
    }
}

pub struct ParamM {
    pub name: Seq<char>,
    pub ty: TyModel,
}

pub open spec fn param_m(p: Param) -> ParamM {
    ParamM { name: p.name@, ty: ty_model(p.ty) }
}

pub open spec fn params_m(s: Seq<Param>) -> Seq<ParamM> {
    s.map_values(|p: Param| param_m(p))
}

pub struct BulletM {
    pub name: Seq<char>,
    pub params: Seq<ParamM>,
    pub out_name: Seq<char>,
    pub out_ty: TyModel,
    pub body: BodyM,
    pub line: nat,
    pub col: nat,
    pub is_test: bool,
}

pub open spec fn bullet_m(b: Bullet) -> BulletM {
    BulletM {
        name: b.name@,
        params: params_m(b.params@),
        out_name: b.output.name@,
        out_ty: ty_model(b.output.ty),
        body: body_m(b.body),
        line: b.span.line as nat,
        col: b.span.col as nat,
        is_test: b.is_test,
    }
}

pub open spec fn bullets_m(s: Seq<Bullet>) -> Seq<BulletM> {
    s.map_values(|b: Bullet| bullet_m(b))
}

pub open spec fn source_m(f: SourceFile) -> Seq<BulletM> {
    bullets_m(f.bullets@)
}

pub struct EntryM {
    pub file: Seq<char>,
    pub functions: Seq<Seq<char>>,
}

pub open spec fn entry_m(e: InventoryEntry) -> EntryM {
    EntryM { file: e.file@, functions: strs_m(e.functions@) }
}

pub open spec fn entries_m(s: Seq<InventoryEntry>) -> Seq<EntryM> {
    s.map_values(|e: InventoryEntry| entry_m(e))
}

pub struct InventoryM {
    pub rank: Rank,
    pub lang: Option<BackendM>,
    pub libs: Seq<Seq<char>>,
    pub entries: Seq<EntryM>,
}

pub open spec fn inventory_m(f: InventoryFile) -> InventoryM {
    InventoryM {
        rank: f.rank,
        lang: match f.lang {
            Some(b) => Some(backend_m(b)),
            None => None,
        },
        libs: strs_m(f.libs@),
        entries: entries_m(f.entries@),
    }
}

pub enum BuFileM {
    Source(Seq<BulletM>),
    Inventory(InventoryM),
}

pub open spec fn bufile_m(f: BuFile) -> BuFileM {
    match f {
        BuFile::Source(s) => BuFileM::Source(source_m(s)),
        BuFile::Inventory(i) => BuFileM::Inventory(inventory_m(i)),
    }
}

} // verus!
