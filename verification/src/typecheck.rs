//! Type checking: infers the type of each pipe's expression from the
//! parameters, the earlier bindings and the signatures that the folders below
//! offer, and reports mismatches.

use vstd::prelude::*;
use crate::ast::{
    Atom, BinExpr, BuType, Bullet, BulletBody, BulletSig, CallArg, Expr, SourceFile, Span, TyModel, lemma_ty_text, lemma_tys_model, lemma_tys_text, tm_numeric, tm_text,
    tms_text, ty_model, tys_model,
};
use crate::model::{
    ArgM, AtomM, BodyM, BulletM, ExprM, ParamM, PipeM, arg_m, args_m, atom_m, bullet_m, expr_m, exprs_m,
    lemma_exprs_m, param_m, params_m, pipe_m, pipes_m, source_m, strs_m,
};
use crate::text::{chars_of, concat, decimal, is_whitespace, is_ws, owned, push_char, usize_to_string};
use crate::validator::{ErrM, at_span, err_text, one};
use crate::ast::{BuFile, Rank};
use crate::grammar::{Outcome, source_file};
use crate::model::EntryM;
use crate::parser::{ParseError, parse_file};
use crate::project::{
    Folder, FolderM, Loaded, LoadedM, butext_m, butexts_m, find_file, find_named, folder_m, folders_m,
    inventory_of, join, join_path, lemma_find_index, lemma_folders_m, lemma_trees_fit, read_inventory,
    text_fits, texts_fit, tree_fits, trees_fit,
};

verus! {

// ── Errors ───────────────────────────────────────────────────────────────────

/// A type error, located by file, line and column.
#[derive(Debug, Clone)]
pub struct TypeError {
    pub file: String,
    pub line: usize,
    pub col: usize,
    pub message: String,
}

pub open spec fn terr_m(e: TypeError) -> ErrM {
    ErrM { file: e.file@, line: e.line as nat, col: e.col as nat, message: e.message@ }
}

pub open spec fn terrs_m(s: Seq<TypeError>) -> Seq<ErrM> {
    s.map_values(|e: TypeError| terr_m(e))
}

impl TypeError {
    /// The error as the tool prints it.
    pub fn render(&self) -> (r: String)
        ensures
            r@ == err_text(terr_m(*self)),
    {
        let mut r = owned("[");
        r.append(self.file.as_str());
        if self.line > 0 {
            r.append(":");
            r.append(usize_to_string(self.line).as_str());
            r.append(":");
            r.append(usize_to_string(self.col).as_str());
        }
        r.append("] ");
        r.append(self.message.as_str());
        assert(r@ =~= err_text(terr_m(*self)));
        r
    }
}

/// An error at a position of a file.
fn terr(path: &str, line: usize, col: usize, message: String) -> (e: TypeError)
    ensures
        terr_m(e) == at_span(path@, line as nat, col as nat, message@),
{
    TypeError { file: owned(path), line, col, message }
}

fn push_terr(errors: &mut Vec<TypeError>, e: TypeError)
    ensures
        terrs_m(final(errors)@) == terrs_m(old(errors)@).push(terr_m(e)),
{
    let ghost before = errors@;
    errors.push(e);
    assert(terrs_m(errors@) =~= terrs_m(before).push(terr_m(e)));
}

fn extend_terrs(errors: &mut Vec<TypeError>, more: Vec<TypeError>)
    ensures
        terrs_m(final(errors)@) == terrs_m(old(errors)@) + terrs_m(more@),
{
    let ghost before = errors@;
    let ghost added = more@;
    let mut more = more;
    errors.append(&mut more);
    assert(terrs_m(errors@) =~= terrs_m(before) + terrs_m(added));
}

// ── Named values ─────────────────────────────────────────────────────────────

/// The value bound to `k` in an association list: its last binding.
pub open spec fn lookup<V>(s: Seq<(Seq<char>, V)>, k: Seq<char>) -> Option<V>
    decreases s.len(),
{
    if s.len() == 0 {
        None
    } else if s.last().0 == k {
        Some(s.last().1)
    } else {
        lookup(s.drop_last(), k)
    }
}

/// A signature inserted last is what a lookup of its name finds; other names
/// keep their values.
pub proof fn law_lookup_after_insert<V>(s: Seq<(Seq<char>, V)>, k: Seq<char>, v: V, other: Seq<char>)
    ensures
        lookup(s.push((k, v)), k) == Some(v),
        other != k ==> lookup(s.push((k, v)), other) == lookup(s, other),
{
    assert(s.push((k, v)).drop_last() =~= s);
}

/// Bindings appended from `b` take precedence over those of `a`.
pub proof fn lemma_lookup_concat<V>(a: Seq<(Seq<char>, V)>, b: Seq<(Seq<char>, V)>, k: Seq<char>)
    ensures
        lookup(a + b, k) == (match lookup(b, k) {
            Some(v) => Some(v),
            None => lookup(a, k),
        }),
    decreases b.len(),
{
    if b.len() == 0 {
        assert(a + b =~= a);
    } else {
        assert((a + b).drop_last() =~= a + b.drop_last());
        assert((a + b).last() == b.last());
        lemma_lookup_concat(a, b.drop_last(), k);
    }
}

// ── Signatures ───────────────────────────────────────────────────────────────

/// The value of a signature.
pub struct SigM {
    pub params: Seq<TyModel>,
    pub returns: TyModel,
}

pub open spec fn sig_m(s: BulletSig) -> SigM {
    SigM { params: tys_model(s.params@), returns: ty_model(s.returns) }
}

fn copy_types(v: &Vec<BuType>) -> (r: Vec<BuType>)
    ensures
        tys_model(r@) == tys_model(v@),
{
    let mut r: Vec<BuType> = Vec::new();
    let mut i: usize = 0;
    proof { lemma_tys_model(v@); }
    while i < v.len()
        invariant
            i <= v.len(),
            r.len() == i,
            tys_model(v@).len() == v.len(),
            forall|j: int| 0 <= j < v.len() ==> #[trigger] tys_model(v@)[j] == ty_model(v@[j]),
            forall|j: int| 0 <= j < i ==> ty_model(#[trigger] r@[j]) == ty_model(v@[j]),
        decreases v.len() - i,
    {
        r.push(v[i].duplicate());
        i = i + 1;
    }
    proof { lemma_tys_model(r@); }
    assert(tys_model(r@) =~= tys_model(v@));
    r
}

fn copy_sig(s: &BulletSig) -> (r: BulletSig)
    ensures
        sig_m(r) == sig_m(*s),
{
    BulletSig { params: copy_types(&s.params), returns: s.returns.duplicate() }
}

/// Function signatures by name; a name bound twice means its later binding.
pub struct TypeEnv {
    sigs: Vec<(String, BulletSig)>,
}

impl View for TypeEnv {
    type V = Seq<(Seq<char>, SigM)>;

    closed spec fn view(&self) -> Seq<(Seq<char>, SigM)> {
        self.sigs@.map_values(|p: (String, BulletSig)| (p.0@, sig_m(p.1)))
    }
}

impl TypeEnv {
    /// An environment that binds nothing.
    pub fn new() -> (e: TypeEnv)
        ensures
            e@ == Seq::<(Seq<char>, SigM)>::empty(),
    {
        let e = TypeEnv { sigs: Vec::new() };
        assert(e@ =~= Seq::<(Seq<char>, SigM)>::empty());
        e
    }

    /// Binds `name` to `sig`.
    pub fn insert(&mut self, name: String, sig: BulletSig)
        ensures
            final(self)@ == old(self)@.push((name@, sig_m(sig))),
    {
        let ghost before = self@;
        self.sigs.push((name, sig));
        assert(self@ =~= before.push((name@, sig_m(sig))));
    }

    /// Adds every binding of `other`, which take precedence.
    pub fn extend(&mut self, other: TypeEnv)
        ensures
            final(self)@ == old(self)@ + other@,
    {
        let ghost before = self@;
        let ghost added = other@;
        let mut more = other.sigs;
        self.sigs.append(&mut more);
        assert(self@ =~= before + added);
    }

    /// The signature bound to `name`, if any.
    pub fn get(&self, name: &str) -> (r: Option<&BulletSig>)
        ensures
            match lookup(self@, name@) {
                Some(s) => r matches Some(x) && sig_m(*x) == s,
                None => r is None,
            },
    {
        let ghost s = self@;
        let mut i: usize = self.sigs.len();
        assert(s.take(i as int) =~= s);
        while i > 0
            invariant
                i <= self.sigs.len(),
                s == self@,
                lookup(s, name@) == lookup(s.take(i as int), name@),
            decreases i,
        {
            assert(s.take(i as int).drop_last() =~= s.take(i - 1));
            assert(s.take(i as int).last() == (self.sigs@[i - 1].0@, sig_m(self.sigs@[i - 1].1)));
            if crate::text::str_eq(self.sigs[i - 1].0.as_str(), name) {
                return Some(&self.sigs[i - 1].1);
            }
            i = i - 1;
        }
        None
    }
}

/// Types bound to local names.
pub open spec fn locals_m(s: Seq<(String, BuType)>) -> Seq<(Seq<char>, TyModel)> {
    s.map_values(|p: (String, BuType)| (p.0@, ty_model(p.1)))
}

/// The type of a local name; unknown when it is not bound.
pub open spec fn local_ty(local: Seq<(Seq<char>, TyModel)>, k: Seq<char>) -> TyModel {
    match lookup(local, k) {
        Some(t) => t,
        None => TyModel::Unknown,
    }
}

fn local_get(local: &Vec<(String, BuType)>, name: &str) -> (r: BuType)
    ensures
        ty_model(r) == local_ty(locals_m(local@), name@),
{
    let ghost s = locals_m(local@);
    let mut i: usize = local.len();
    assert(s.take(i as int) =~= s);
    while i > 0
        invariant
            i <= local.len(),
            s == locals_m(local@),
            lookup(s, name@) == lookup(s.take(i as int), name@),
        decreases i,
    {
        assert(s.take(i as int).drop_last() =~= s.take(i - 1));
        assert(s.take(i as int).last() == (local@[i - 1].0@, ty_model(local@[i - 1].1)));
        if crate::text::str_eq(local[i - 1].0.as_str(), name) {
            return local[i - 1].1.duplicate();
        }
        i = i - 1;
    }
    assert(s.take(0) =~= Seq::<(Seq<char>, TyModel)>::empty());
    BuType::Unknown
}

// ── Compatibility ────────────────────────────────────────────────────────────

/// The string with every whitespace character removed.
pub open spec fn strip_ws(s: Seq<char>) -> Seq<char>
    decreases s.len(),
{
    if s.len() == 0 {
        s
    } else if is_ws(s.last()) {
        strip_ws(s.drop_last())
    } else {
        strip_ws(s.drop_last()).push(s.last())
    }
}

/// Removes all whitespace (the pieces of `split_whitespace`, joined).
fn normalize(s: &str) -> (r: String)
    ensures
        r@ == strip_ws(s@),
{
    let v = chars_of(s);
    let mut r = String::new();
    let mut i: usize = 0;
    while i < v.len()
        invariant
            i <= v.len(),
            v@ == s@,
            r@ == strip_ws(v@.take(i as int)),
        decreases v.len() - i,
    {
        assert(v@.take(i + 1).drop_last() =~= v@.take(i as int));
        assert(v@.take(i + 1).last() == v@[i as int]);
        if !is_whitespace(v[i]) {
            push_char(&mut r, v[i]);
        }
        i = i + 1;
    }
    assert(v@.take(v.len() as int) =~= v@);
    r
}

/// Two types agree: either is unknown, two names agree up to whitespace, or
/// they are the same type.
pub open spec fn compatible(a: TyModel, b: TyModel) -> bool {
    if a is Unknown || b is Unknown {
        true
    } else {
        match (a, b) {
            (TyModel::Named(x), TyModel::Named(y)) => strip_ws(x) == strip_ws(y),
            _ => a == b,
        }
    }
}

fn types_compatible(a: &BuType, b: &BuType) -> (r: bool)
    ensures
        r == compatible(ty_model(*a), ty_model(*b)),
{
    match (a, b) {
        (BuType::Unknown, _) => true,
        (_, BuType::Unknown) => true,
        (BuType::Named(x), BuType::Named(y)) => {
            let nx = normalize(x.as_str());
            let ny = normalize(y.as_str());
            crate::text::str_eq(nx.as_str(), ny.as_str())
        },
        _ => a.same(b),
    }
}

/// The function type of a signature: `fn(<params>) -> <returns>`.
pub open spec fn fn_type(s: SigM) -> TyModel {
    TyModel::Named("fn("@ + tms_text(s.params) + ") -> "@ + tm_text(s.returns))
}

fn build_fn_type(sig: &BulletSig) -> (r: BuType)
    ensures
        ty_model(r) == fn_type(sig_m(*sig)),
{
    let mut out = owned("fn(");
    let mut i: usize = 0;
    proof { lemma_tys_model(sig.params@); }
    while i < sig.params.len()
        invariant
            i <= sig.params.len(),
            out@ == "fn("@ + crate::ast::tys_text(sig.params@.take(i as int)),
        decreases sig.params.len() - i,
    {
        assert(sig.params@.take(i + 1).drop_last() =~= sig.params@.take(i as int));
        if i > 0 {
            out.append(", ");
        }
        let piece = sig.params[i].to_rust();
        out.append(piece.as_str());
        proof {
            if i == 0 {
                assert(sig.params@.take(1)[0] == sig.params@[0]);
            }
            assert(sig.params@.take(i + 1).last() == sig.params@[i as int]);
        }
        i = i + 1;
    }
    assert(sig.params@.take(sig.params.len() as int) =~= sig.params@);
    out.append(") -> ");
    let ret = sig.returns.to_rust();
    out.append(ret.as_str());
    proof {
        lemma_tys_text(sig.params@);
        lemma_ty_text(sig.returns);
    }
    BuType::Named(out)
}


// ── Inference ────────────────────────────────────────────────────────────────

/// What inference sees at one pipe: local bindings, the signatures offered,
/// whether calls are allowed at all, and where errors are reported.
pub struct TcCtx {
    pub local: Seq<(Seq<char>, TyModel)>,
    pub env: Seq<(Seq<char>, SigM)>,
    pub is_skirmish: bool,
    pub func: Seq<char>,
    pub file: Seq<char>,
    pub line: nat,
    pub col: nat,
}

pub open spec fn tc_err(c: TcCtx, msg: Seq<char>) -> ErrM {
    at_span(c.file, c.line, c.col, msg)
}

pub open spec fn m_arity(f: Seq<char>, name: Seq<char>, expected: nat, got: nat) -> Seq<char> {
    "Function '"@ + f + "': '"@ + name + "' expects "@ + decimal(expected) + " argument(s) but received "@
        + decimal(got) + "."@
}

pub open spec fn m_arg_type(f: Seq<char>, pos: nat, name: Seq<char>, actual: Seq<char>, expected: Seq<char>) -> Seq<char> {
    "Function '"@ + f + "': argument "@ + decimal(pos) + " passed to '"@ + name + "' is "@ + actual + " but "@
        + expected + " was expected."@
}

pub open spec fn m_ref_type(f: Seq<char>, r: Seq<char>, fnty: Seq<char>, pos: nat, name: Seq<char>, expected: Seq<char>) -> Seq<char> {
    "Function '"@ + f + "': '&"@ + r + "' has type "@ + fnty + " but argument "@ + decimal(pos) + " of '"@ + name
        + "' expects "@ + expected + "."@
}

pub open spec fn m_op_same(f: Seq<char>, op: Seq<char>, l: Seq<char>, r: Seq<char>) -> Seq<char> {
    "Function '"@ + f + "': operator '"@ + op + "' requires both sides to be the same type (left: "@ + l
        + ", right: "@ + r + ")."@
}

pub open spec fn m_op_numeric(f: Seq<char>, op: Seq<char>, l: Seq<char>) -> Seq<char> {
    "Function '"@ + f + "': operator '"@ + op + "' requires a numeric type, got "@ + l + "."@
}

pub open spec fn m_last_output(f: Seq<char>, t: Seq<char>, out: Seq<char>) -> Seq<char> {
    "Function '"@ + f + "': last bullet produces "@ + t + " but declared output is "@ + out + "."@
}

/// The check of argument `pos` (counted from 1) of a call of `name`.
pub open spec fn arg_err(c: TcCtx, name: Seq<char>, a: ArgM, expected: TyModel, pos: nat) -> Seq<ErrM> {
    match a {
        ArgM::Value(v) => {
            let actual = local_ty(c.local, v);
            if !(actual is Unknown) && !compatible(actual, expected) {
                seq![tc_err(c, m_arg_type(c.func, pos, name, tm_text(actual), tm_text(expected)))]
            } else {
                Seq::empty()
            }
        },
        ArgM::Ref(r) => match lookup(c.env, r) {
            Some(rs) => if !compatible(fn_type(rs), expected) {
                seq![tc_err(c, m_ref_type(c.func, r, tm_text(fn_type(rs)), pos, name, tm_text(expected)))]
            } else {
                Seq::empty()
            },
            None => Seq::empty(),
        },
    }
}

pub open spec fn args_errs(c: TcCtx, name: Seq<char>, args: Seq<ArgM>, params: Seq<TyModel>) -> Seq<ErrM>
    decreases args.len(),
{
    if args.len() == 0 {
        Seq::empty()
    } else {
        args_errs(c, name, args.drop_last(), params) + arg_err(c, name, args.last(), params[args.len() - 1], args.len())
    }
}

/// The type of an atom and the errors found in it. Literals are of unknown
/// type; a call is typed by its callee's signature when one is known.
pub open spec fn infer_atom_m(c: TcCtx, a: AtomM) -> (TyModel, Seq<ErrM>) {
    match a {
        AtomM::Ident(n) => (local_ty(c.local, n), Seq::empty()),
        AtomM::Call(name, args) => if c.is_skirmish {
            (TyModel::Unknown, Seq::empty())
        } else {
            match lookup(c.env, name) {
                Some(sig) => if args.len() != sig.params.len() {
                    (sig.returns, seq![tc_err(c, m_arity(c.func, name, sig.params.len(), args.len()))])
                } else {
                    (sig.returns, args_errs(c, name, args, sig.params))
                },
                None => (TyModel::Unknown, Seq::empty()),
            }
        },
        _ => (TyModel::Unknown, Seq::empty()),
    }
}

/// The type of an expression and the errors found in it, left to right.
pub open spec fn infer_expr_m(c: TcCtx, e: ExprM) -> (TyModel, Seq<ErrM>)
    decreases e,
{
    match e {
        ExprM::Atom(a) => infer_atom_m(c, a),
        ExprM::Bin(l, op, r) => {
            let (lt, le) = infer_atom_m(c, l);
            let (rt, re) = infer_atom_m(c, r);
            let es = le + re;
            if lt is Unknown || rt is Unknown {
                (TyModel::Unknown, es)
            } else if lt != rt {
                (TyModel::Unknown, es.push(tc_err(c, m_op_same(c.func, op, tm_text(lt), tm_text(rt)))))
            } else if !tm_numeric(lt) {
                (TyModel::Unknown, es.push(tc_err(c, m_op_numeric(c.func, op, tm_text(lt)))))
            } else {
                (lt, es)
            }
        },
        ExprM::Tuple(es) => {
            let (ts, errs) = infer_exprs_m(c, es);
            (TyModel::Tuple(ts), errs)
        },
    }
}

pub open spec fn infer_exprs_m(c: TcCtx, es: Seq<ExprM>) -> (Seq<TyModel>, Seq<ErrM>)
    decreases es,
{
    if es.len() == 0 {
        (Seq::empty(), Seq::empty())
    } else {
        let (ts, e1) = infer_exprs_m(c, es.drop_last());
        let (t, e2) = infer_expr_m(c, es.last());
        (ts.push(t), e1 + e2)
    }
}


/// The inference context of executable arguments.
pub open spec fn ctx_m(local: Seq<(String, BuType)>, env: Seq<(Seq<char>, SigM)>, is_skirmish: bool, func: Seq<char>, file: Seq<char>, span: Span) -> TcCtx {
    TcCtx { local: locals_m(local), env, is_skirmish, func, file, line: span.line as nat, col: span.col as nat }
}

fn type_text(t: &BuType) -> (r: String)
    ensures
        r@ == tm_text(ty_model(*t)),
{
    proof { lemma_ty_text(*t); }
    t.to_rust()
}

fn check_arg(
    arg: &CallArg,
    expected: &BuType,
    pos: usize,
    name: &str,
    local: &Vec<(String, BuType)>,
    env: &TypeEnv,
    func_name: &str,
    path: &str,
    span: Span,
    errors: &mut Vec<TypeError>,
)
    ensures
        terrs_m(final(errors)@) == terrs_m(old(errors)@) + arg_err(
            ctx_m(local@, env@, false, func_name@, path@, span),
            name@,
            arg_m(*arg),
            ty_model(*expected),
            pos as nat,
        ),
{
    let ghost c = ctx_m(local@, env@, false, func_name@, path@, span);
    match arg {
        CallArg::Value(v) => {
            let actual = local_get(local, v.as_str());
            let is_unknown = match actual {
                BuType::Unknown => true,
                _ => false,
            };
            if !is_unknown && !types_compatible(&actual, expected) {
                let mut m = owned("Function '");
                m.append(func_name);
                m.append("': argument ");
                m.append(usize_to_string(pos).as_str());
                m.append(" passed to '");
                m.append(name);
                m.append("' is ");
                m.append(type_text(&actual).as_str());
                m.append(" but ");
                m.append(type_text(expected).as_str());
                m.append(" was expected.");
                assert(m@ =~= m_arg_type(func_name@, pos as nat, name@, tm_text(ty_model(actual)), tm_text(ty_model(*expected))));
                push_terr(errors, terr(path, span.line, span.col, m));
            } else {
                assert(terrs_m(errors@) =~= terrs_m(errors@) + Seq::<ErrM>::empty());
            }
        },
        CallArg::BulletRef(r) => {
            match env.get(r.as_str()) {
                Some(rs) => {
                    let fn_ty = build_fn_type(rs);
                    if !types_compatible(&fn_ty, expected) {
                        let mut m = owned("Function '");
                        m.append(func_name);
                        m.append("': '&");
                        m.append(r.as_str());
                        m.append("' has type ");
                        m.append(type_text(&fn_ty).as_str());
                        m.append(" but argument ");
                        m.append(usize_to_string(pos).as_str());
                        m.append(" of '");
                        m.append(name);
                        m.append("' expects ");
                        m.append(type_text(expected).as_str());
                        m.append(".");
                        assert(m@ =~= m_ref_type(func_name@, r@, tm_text(ty_model(fn_ty)), pos as nat, name@, tm_text(ty_model(*expected))));
                        push_terr(errors, terr(path, span.line, span.col, m));
                    } else {
                        assert(terrs_m(errors@) =~= terrs_m(errors@) + Seq::<ErrM>::empty());
                    }
                },
                None => {
                    assert(terrs_m(errors@) =~= terrs_m(errors@) + Seq::<ErrM>::empty());
                },
            }
        },
    }
}

fn infer_atom(
    atom: &Atom,
    local: &Vec<(String, BuType)>,
    env: &TypeEnv,
    is_skirmish: bool,
    func_name: &str,
    path: &str,
    span: Span,
    errors: &mut Vec<TypeError>,
) -> (t: BuType)
    ensures
        ty_model(t) == infer_atom_m(ctx_m(local@, env@, is_skirmish, func_name@, path@, span), atom_m(*atom)).0,
        terrs_m(final(errors)@) == terrs_m(old(errors)@)
            + infer_atom_m(ctx_m(local@, env@, is_skirmish, func_name@, path@, span), atom_m(*atom)).1,
{
    let ghost c = ctx_m(local@, env@, is_skirmish, func_name@, path@, span);
    assert(terrs_m(errors@) =~= terrs_m(errors@) + Seq::<ErrM>::empty());
    match atom {
        Atom::Ident(name) => local_get(local, name.as_str()),
        Atom::Call { name, args } => {
            if is_skirmish {
                return BuType::Unknown;
            }
            let sig = match env.get(name.as_str()) {
                Some(s) => copy_sig(s),
                None => return BuType::Unknown,
            };
            proof { lemma_tys_model(sig.params@); }
            if args.len() != sig.params.len() {
                let mut m = owned("Function '");
                m.append(func_name);
                m.append("': '");
                m.append(name.as_str());
                m.append("' expects ");
                m.append(usize_to_string(sig.params.len()).as_str());
                m.append(" argument(s) but received ");
                m.append(usize_to_string(args.len()).as_str());
                m.append(".");
                assert(m@ =~= m_arity(func_name@, name@, sig.params.len() as nat, args.len() as nat));
                push_terr(errors, terr(path, span.line, span.col, m));
                return sig.returns.duplicate();
            }
            let ghost am = args_m(args@);
            let ghost ps = sig_m(sig).params;
            let ghost start = terrs_m(errors@);
            let ghost c0 = ctx_m(local@, env@, false, func_name@, path@, span);
            assert(am.take(0) =~= Seq::<ArgM>::empty());
            assert(terrs_m(errors@) =~= start + args_errs(c0, name@, am.take(0), ps));
            let mut i: usize = 0;
            while i < args.len()
                invariant
                    i <= args.len(),
                    args.len() == sig.params.len(),
                    am == args_m(args@),
                    c0 == ctx_m(local@, env@, false, func_name@, path@, span),
                    ps == sig_m(sig).params,
                    ps.len() == sig.params.len(),
                    forall|j: int| 0 <= j < sig.params.len() ==> #[trigger] ps[j] == ty_model(sig.params@[j]),
                    terrs_m(errors@) == start + args_errs(c0, name@, am.take(i as int), ps),
                decreases args.len() - i,
            {
                assert(am.take(i + 1).drop_last() =~= am.take(i as int));
                assert(am.take(i + 1).last() == arg_m(args@[i as int]));
                let ghost before = terrs_m(errors@);
                assert(ps[i as int] == ty_model(sig.params@[i as int]));
                assert(args_errs(c0, name@, am.take(i + 1), ps) == args_errs(c0, name@, am.take(i as int), ps)
                    + arg_err(c0, name@, arg_m(args@[i as int]), ps[i as int], (i + 1) as nat));
                check_arg(&args[i], &sig.params[i], i + 1, name.as_str(), local, env, func_name, path, span, errors);
                let ghost x = arg_err(c0, name@, arg_m(args@[i as int]), ty_model(sig.params@[i as int]), (i + 1) as nat);
                assert(terrs_m(errors@) == before + x);
                assert(terrs_m(errors@) =~= start + args_errs(c0, name@, am.take(i + 1), ps));
                i = i + 1;
            }
            assert(am.take(args.len() as int) =~= am);
            sig.returns
        },
        _ => BuType::Unknown,
    }
}

fn infer_bin(
    b: &BinExpr,
    local: &Vec<(String, BuType)>,
    env: &TypeEnv,
    is_skirmish: bool,
    func_name: &str,
    path: &str,
    span: Span,
    errors: &mut Vec<TypeError>,
) -> (t: BuType)
    ensures
        ty_model(t) == infer_expr_m(ctx_m(local@, env@, is_skirmish, func_name@, path@, span), ExprM::Bin(atom_m(b.lhs), b.op@, atom_m(b.rhs))).0,
        terrs_m(final(errors)@) == terrs_m(old(errors)@)
            + infer_expr_m(ctx_m(local@, env@, is_skirmish, func_name@, path@, span), ExprM::Bin(atom_m(b.lhs), b.op@, atom_m(b.rhs))).1,
{
    let ghost c = ctx_m(local@, env@, is_skirmish, func_name@, path@, span);
    let ghost start = terrs_m(errors@);
    let lt = infer_atom(&b.lhs, local, env, is_skirmish, func_name, path, span, errors);
    let rt = infer_atom(&b.rhs, local, env, is_skirmish, func_name, path, span, errors);
    let ghost es = infer_atom_m(c, atom_m(b.lhs)).1 + infer_atom_m(c, atom_m(b.rhs)).1;
    assert(terrs_m(errors@) =~= start + es);
    let l_unknown = match lt {
        BuType::Unknown => true,
        _ => false,
    };
    let r_unknown = match rt {
        BuType::Unknown => true,
        _ => false,
    };
    if l_unknown || r_unknown {
        return BuType::Unknown;
    }
    if !lt.same(&rt) {
        let mut m = owned("Function '");
        m.append(func_name);
        m.append("': operator '");
        m.append(b.op.as_str());
        m.append("' requires both sides to be the same type (left: ");
        m.append(type_text(&lt).as_str());
        m.append(", right: ");
        m.append(type_text(&rt).as_str());
        m.append(").");
        assert(m@ =~= m_op_same(func_name@, b.op@, tm_text(ty_model(lt)), tm_text(ty_model(rt))));
        push_terr(errors, terr(path, span.line, span.col, m));
        assert(terrs_m(errors@) =~= start + es.push(tc_err(c, m@)));
        return BuType::Unknown;
    }
    if !lt.is_numeric() {
        let mut m = owned("Function '");
        m.append(func_name);
        m.append("': operator '");
        m.append(b.op.as_str());
        m.append("' requires a numeric type, got ");
        m.append(type_text(&lt).as_str());
        m.append(".");
        assert(m@ =~= m_op_numeric(func_name@, b.op@, tm_text(ty_model(lt))));
        push_terr(errors, terr(path, span.line, span.col, m));
        assert(terrs_m(errors@) =~= start + es.push(tc_err(c, m@)));
        return BuType::Unknown;
    }
    lt

}

/// Infers the type of an expression, reporting what is wrong in it.
#[verifier::loop_isolation(false)]
fn infer_expr(
    expr: &Expr,
    local: &Vec<(String, BuType)>,
    env: &TypeEnv,
    is_skirmish: bool,
    func_name: &str,
    path: &str,
    span: Span,
    errors: &mut Vec<TypeError>,
) -> (t: BuType)
    ensures
        ty_model(t) == infer_expr_m(ctx_m(local@, env@, is_skirmish, func_name@, path@, span), expr_m(*expr)).0,
        terrs_m(final(errors)@) == terrs_m(old(errors)@)
            + infer_expr_m(ctx_m(local@, env@, is_skirmish, func_name@, path@, span), expr_m(*expr)).1,
    decreases expr,
{
    let ghost c = ctx_m(local@, env@, is_skirmish, func_name@, path@, span);
    match expr {
        Expr::Atom(a) => infer_atom(a, local, env, is_skirmish, func_name, path, span, errors),
        Expr::BinOp(b) => infer_bin(b, local, env, is_skirmish, func_name, path, span, errors),
        Expr::Tuple(es) => {
            let ghost em = exprs_m(es@);
            let ghost start = terrs_m(errors@);
            proof { lemma_exprs_m(es@); }
            let mut v: Vec<BuType> = Vec::new();
            let mut i: usize = 0;
            assert(em.take(0) =~= Seq::<ExprM>::empty());
            assert(tys_model(v@) =~= Seq::<TyModel>::empty());
            assert(terrs_m(errors@) =~= start + Seq::<ErrM>::empty());
            while i < es.len()
                invariant
                    i <= es.len(),
                    em == exprs_m(es@),
                    em.len() == es.len(),
                    forall|j: int| 0 <= j < es.len() ==> #[trigger] em[j] == expr_m(es@[j]),
                    tys_model(v@) == infer_exprs_m(c, em.take(i as int)).0,
                    terrs_m(errors@) == start + infer_exprs_m(c, em.take(i as int)).1,
                decreases es.len() - i,
            {
                assert(em.take(i + 1).drop_last() =~= em.take(i as int));
                assert(em.take(i + 1).last() == expr_m(es@[i as int]));
                let ghost before = terrs_m(errors@);
                let t = infer_expr(&es[i], local, env, is_skirmish, func_name, path, span, errors);
                let ghost vb = v@;
                v.push(t);
                assert(v@ == vb.push(t));
                assert(v@.drop_last() =~= vb);
                assert(tys_model(v@) == tys_model(vb).push(ty_model(t)));
                assert(terrs_m(errors@) =~= start + infer_exprs_m(c, em.take(i + 1)).1);
                i = i + 1;
            }
            assert(em.take(es.len() as int) =~= em);
            BuType::Tuple(v)
        },
    }
}


// ── Functions and files ──────────────────────────────────────────────────────

/// The parameters of a function as local bindings.
pub open spec fn params_local(ps: Seq<ParamM>) -> Seq<(Seq<char>, TyModel)> {
    ps.map_values(|p: ParamM| (p.name, p.ty))
}

/// The pipes of a function, checked in order: each expression is inferred
/// with the bindings made so far, the last one must agree with the declared
/// output, and each binds its name to the inferred type. `last` is the index
/// of the function's last pipe.
pub open spec fn pipes_tc(ps: Seq<PipeM>, last: int, b: BulletM, file: Seq<char>, env: Seq<(Seq<char>, SigM)>, sk: bool) -> (Seq<(Seq<char>, TyModel)>, Seq<ErrM>)
    decreases ps.len(),
{
    if ps.len() == 0 {
        (params_local(b.params), Seq::empty())
    } else {
        let (local, errs) = pipes_tc(ps.drop_last(), last, b, file, env, sk);
        let p = ps.last();
        let c = TcCtx { local, env, is_skirmish: sk, func: b.name, file, line: p.line, col: p.col };
        let (t, e) = infer_expr_m(c, p.expr);
        (
            local.push((p.binding, t)),
            errs + e + one(ps.len() - 1 == last && !compatible(t, b.out_ty),
                tc_err(c, m_last_output(b.name, tm_text(t), tm_text(b.out_ty)))),
        )
    }
}

/// The type errors of one function; native and builtin bodies have none.
pub open spec fn fn_tc(b: BulletM, file: Seq<char>, env: Seq<(Seq<char>, SigM)>, sk: bool) -> Seq<ErrM> {
    match b.body {
        BodyM::Pipes(ps) => pipes_tc(ps, ps.len() - 1, b, file, env, sk).1,
        _ => Seq::empty(),
    }
}

fn check_function(func: &Bullet, path: &str, env: &TypeEnv, is_skirmish: bool) -> (errors: Vec<TypeError>)
    ensures
        terrs_m(errors@) == fn_tc(bullet_m(*func), path@, env@, is_skirmish),
{
    let ghost bm = bullet_m(*func);
    let pipes = match &func.body {
        BulletBody::Pipes(p) => p,
        _ => {
            let v: Vec<TypeError> = Vec::new();
            assert(terrs_m(v@) =~= Seq::<ErrM>::empty());
            return v;
        },
    };
    let ghost pm = pipes_m(pipes@);
    let mut errors: Vec<TypeError> = Vec::new();
    let mut local: Vec<(String, BuType)> = Vec::new();
    let mut k: usize = 0;
    while k < func.params.len()
        invariant
            k <= func.params.len(),
            locals_m(local@) == params_local(params_m(func.params@).take(k as int)),
        decreases func.params.len() - k,
    {
        let ghost before = locals_m(local@);
        local.push((owned(func.params[k].name.as_str()), func.params[k].ty.duplicate()));
        assert(locals_m(local@) =~= before.push((func.params@[k as int].name@, ty_model(func.params@[k as int].ty))));
        assert(params_m(func.params@).take(k + 1) =~= params_m(func.params@).take(k as int).push(param_m(func.params@[k as int])));
        assert(params_local(params_m(func.params@).take(k + 1)) =~= params_local(params_m(func.params@).take(k as int)).push((func.params@[k as int].name@, ty_model(func.params@[k as int].ty))));
        k = k + 1;
    }
    assert(params_m(func.params@).take(func.params.len() as int) =~= params_m(func.params@));
    let last: usize = if pipes.len() == 0 { 0 } else { pipes.len() - 1 };
    assert(pm.take(0) =~= Seq::<PipeM>::empty());
    assert(terrs_m(errors@) =~= Seq::<ErrM>::empty());
    let mut i: usize = 0;
    while i < pipes.len()
        invariant
            i <= pipes.len(),
            pm == pipes_m(pipes@),
            bm == bullet_m(*func),
            bm.body == BodyM::Pipes(pm),
            last == pipes.len() - 1 || pipes.len() == 0,
            (locals_m(local@), terrs_m(errors@)) == pipes_tc(pm.take(i as int), pm.len() - 1, bm, path@, env@, is_skirmish),
        decreases pipes.len() - i,
    {
        assert(pm.take(i + 1).drop_last() =~= pm.take(i as int));
        assert(pm.take(i + 1).last() == pipe_m(pipes@[i as int]));
        let p = &pipes[i];
        let ghost before = terrs_m(errors@);
        let ghost c = ctx_m(local@, env@, is_skirmish, func.name@, path@, p.span);
        let t = infer_expr(&p.expr, &local, env, is_skirmish, func.name.as_str(), path, p.span, &mut errors);
        let ghost mid = terrs_m(errors@);
        if i == last && !types_compatible(&t, &func.output.ty) {
            let mut m = owned("Function '");
            m.append(func.name.as_str());
            m.append("': last bullet produces ");
            m.append(type_text(&t).as_str());
            m.append(" but declared output is ");
            m.append(type_text(&func.output.ty).as_str());
            m.append(".");
            assert(m@ =~= m_last_output(func.name@, tm_text(ty_model(t)), tm_text(ty_model(func.output.ty))));
            push_terr(&mut errors, terr(path, p.span.line, p.span.col, m));
        }
        assert(terrs_m(errors@) =~= mid + one((i as int) == pm.len() - 1 && !compatible(ty_model(t), bm.out_ty),
            tc_err(c, m_last_output(bm.name, tm_text(ty_model(t)), tm_text(bm.out_ty)))));
        let ghost lb = locals_m(local@);
        local.push((owned(p.binding.as_str()), t));
        assert(locals_m(local@) =~= lb.push((p.binding@, ty_model(t))));
        i = i + 1;
    }
    assert(pm.take(pipes.len() as int) =~= pm);
    errors
}

/// The type errors of a file checked on its own: calls are not resolved.
pub open spec fn file_alone_tc(bs: Seq<BulletM>, file: Seq<char>) -> Seq<ErrM>
    decreases bs.len(),
{
    if bs.len() == 0 {
        Seq::empty()
    } else {
        file_alone_tc(bs.drop_last(), file) + fn_tc(bs.last(), file, Seq::empty(), true)
    }
}

/// Type-checks one source file on its own (the single-file mode of the tool).
pub fn typecheck_file(sf: &SourceFile, path: &str) -> (errors: Vec<TypeError>)
    ensures
        terrs_m(errors@) == file_alone_tc(source_m(*sf), path@),
{
    let ghost bs = source_m(*sf);
    let mut errors: Vec<TypeError> = Vec::new();
    let empty = TypeEnv::new();
    assert(bs.take(0) =~= Seq::<BulletM>::empty());
    assert(terrs_m(errors@) =~= Seq::<ErrM>::empty());
    let mut i: usize = 0;
    while i < sf.bullets.len()
        invariant
            i <= sf.bullets.len(),
            bs == source_m(*sf),
            empty@ == Seq::<(Seq<char>, SigM)>::empty(),
            terrs_m(errors@) == file_alone_tc(bs.take(i as int), path@),
        decreases sf.bullets.len() - i,
    {
        assert(bs.take(i + 1).drop_last() =~= bs.take(i as int));
        assert(bs.take(i + 1).last() == bullet_m(sf.bullets@[i as int]));
        let more = check_function(&sf.bullets[i], path, &empty, true);
        extend_terrs(&mut errors, more);
        i = i + 1;
    }
    assert(bs.take(sf.bullets.len() as int) =~= bs);
    errors
}


// ── Folders ──────────────────────────────────────────────────────────────────

/// The signature a function declares.
pub open spec fn bullet_sig(b: BulletM) -> SigM {
    SigM { params: b.params.map_values(|p: ParamM| p.ty), returns: b.out_ty }
}

/// The functions of a file, checked against `env`: the signatures they add
/// and their errors.
pub open spec fn funcs_tc(bs: Seq<BulletM>, file: Seq<char>, env: Seq<(Seq<char>, SigM)>, sk: bool) -> (Seq<(Seq<char>, SigM)>, Seq<ErrM>)
    decreases bs.len(),
{
    if bs.len() == 0 {
        (Seq::empty(), Seq::empty())
    } else {
        let (fe, errs) = funcs_tc(bs.drop_last(), file, env, sk);
        (fe.push((bs.last().name, bullet_sig(bs.last()))), errs + fn_tc(bs.last(), file, env, sk))
    }
}

/// The file `<stem>.bu` of a folder, checked against `env`. A file that is
/// missing, unreadable or not valid adds nothing; an abort stops the run.
#[verifier::opaque]
pub open spec fn source_tc(f: FolderM, stem: Seq<char>, env: Seq<(Seq<char>, SigM)>, sk: bool) -> Result<(Seq<(Seq<char>, SigM)>, Seq<ErrM>), Seq<char>> {
    match find_file(f.files, stem + ".bu"@) {
        Some(b) => match b.text {
            Ok(t) => match source_file(t) {
                Outcome::Done(bs, _) => Ok(funcs_tc(bs, join_path(f.path, stem + ".bu"@), env, sk)),
                Outcome::Fail(_, _) => Ok((Seq::empty(), Seq::empty())),
                Outcome::Abort(m) => Err(m),
            },
            Err(_) => Ok((Seq::empty(), Seq::empty())),
        },
        None => Ok((Seq::empty(), Seq::empty())),
    }
}

/// The files an inventory lists, in order, each checked against the
/// signatures of the folders below and of the files before it.
pub open spec fn entries_tc(f: FolderM, es: Seq<EntryM>, env0: Seq<(Seq<char>, SigM)>, sk: bool) -> Result<(Seq<(Seq<char>, SigM)>, Seq<ErrM>), Seq<char>>
    decreases es.len(),
{
    if es.len() == 0 {
        Ok((env0, Seq::empty()))
    } else {
        match entries_tc(f, es.drop_last(), env0, sk) {
            Err(m) => Err(m),
            Ok((env, errs)) => match source_tc(f, es.last().file, env, sk) {
                Err(m) => Err(m),
                Ok((fe, fr)) => Ok((env + fe, errs + fr)),
            },
        }
    }
}

/// A folder, type-checked: the signatures it offers its parent and the
/// errors found in it and below it. A folder without a readable inventory
/// offers nothing.
pub open spec fn folder_tc(f: FolderM) -> Result<(Seq<(Seq<char>, SigM)>, Seq<ErrM>), Seq<char>>
    decreases f,
{
    match inventory_of(f) {
        LoadedM::Found(inv) => if inv.rank == Rank::War {
            folders_tc(f.subdirs)
        } else {
            let below = if inv.rank != Rank::Skirmish { folders_tc(f.subdirs) } else { Ok((Seq::empty(), Seq::empty())) };
            match below {
                Err(m) => Err(m),
                Ok((env, errs)) => match entries_tc(f, inv.entries, env, inv.rank == Rank::Skirmish) {
                    Err(m) => Err(m),
                    Ok((env2, errs2)) => Ok((env2, errs + errs2)),
                },
            }
        },
        LoadedM::Failed(_) => Ok((Seq::empty(), Seq::empty())),
        LoadedM::Aborted(m) => Err(m),
    }
}

pub open spec fn folders_tc(s: Seq<FolderM>) -> Result<(Seq<(Seq<char>, SigM)>, Seq<ErrM>), Seq<char>>
    decreases s,
{
    if s.len() == 0 {
        Ok((Seq::empty(), Seq::empty()))
    } else {
        match folders_tc(s.drop_last()) {
            Err(m) => Err(m),
            Ok((e1, r1)) => match folder_tc(s.last()) {
                Err(m) => Err(m),
                Ok((e2, r2)) => Ok((e1 + e2, r1 + r2)),
            },
        }
    }
}

pub proof fn lemma_folders_tc_stop(s: Seq<FolderM>, k: int)
    requires
        0 <= k <= s.len(),
        folders_tc(s.take(k)) is Err,
    ensures
        folders_tc(s) == folders_tc(s.take(k)),
    decreases s.len(),
{
    if k < s.len() {
        assert(s.drop_last().take(k) =~= s.take(k));
        lemma_folders_tc_stop(s.drop_last(), k);
    } else {
        assert(s.take(k) =~= s);
    }
}

pub proof fn lemma_entries_tc_stop(f: FolderM, es: Seq<EntryM>, k: int, env0: Seq<(Seq<char>, SigM)>, sk: bool)
    requires
        0 <= k <= es.len(),
        entries_tc(f, es.take(k), env0, sk) is Err,
    ensures
        entries_tc(f, es, env0, sk) == entries_tc(f, es.take(k), env0, sk),
    decreases es.len(),
{
    if k < es.len() {
        assert(es.drop_last().take(k) =~= es.take(k));
        lemma_entries_tc_stop(f, es.drop_last(), k, env0, sk);
    } else {
        assert(es.take(k) =~= es);
    }
}

/// The signature of a function as declared.
fn signature_of(func: &Bullet) -> (s: BulletSig)
    ensures
        sig_m(s) == bullet_sig(bullet_m(*func)),
{
    let mut params: Vec<BuType> = Vec::new();
    let mut i: usize = 0;
    while i < func.params.len()
        invariant
            i <= func.params.len(),
            tys_model(params@) == params_m(func.params@).take(i as int).map_values(|p: ParamM| p.ty),
        decreases func.params.len() - i,
    {
        let ghost before = params@;
        params.push(func.params[i].ty.duplicate());
        assert(params@.drop_last() =~= before);
        assert(params_m(func.params@).take(i + 1).map_values(|p: ParamM| p.ty)
            =~= params_m(func.params@).take(i as int).map_values(|p: ParamM| p.ty).push(ty_model(func.params@[i as int].ty)));
        i = i + 1;
    }
    assert(params_m(func.params@).take(func.params.len() as int) =~= params_m(func.params@));
    BulletSig { params, returns: func.output.ty.duplicate() }
}

/// Type-checks the file `<stem>.bu` of `dir` against `env`, appending its
/// errors; the result is the signatures it declares.
fn check_source_file(dir: &Folder, stem: &str, env: &TypeEnv, is_skirmish: bool, errors: &mut Vec<TypeError>) -> (r: Result<TypeEnv, String>)
    requires
        texts_fit(butexts_m(dir.files@)),
    ensures
        match source_tc(folder_m(*dir), stem@, env@, is_skirmish) {
            Ok((fe, x)) => r matches Ok(e) && e@ == fe && terrs_m(final(errors)@) == terrs_m(old(errors)@) + x,
            Err(m) => r matches Err(t) && t@ == m,
        },
{
    reveal(source_tc);
    let mut file_env = TypeEnv::new();
    let name = concat(stem, ".bu");
    assert(terrs_m(errors@) =~= terrs_m(errors@) + Seq::<ErrM>::empty());
    proof { lemma_find_index(butexts_m(dir.files@), name@); }
    let b = match find_named(&dir.files, name.as_str()) {
        Some(b) => b,
        None => return Ok(file_env),
    };
    let t = match &b.text {
        Ok(t) => t,
        Err(_) => return Ok(file_env),
    };
    proof {
        let k = crate::project::find_index(butexts_m(dir.files@), name@).unwrap();
        assert(butexts_m(dir.files@)[k] == butext_m(*b));
        assert(text_fits(butexts_m(dir.files@)[k].text));
    }
    let sf = match parse_file(t.as_str(), false) {
        Ok(BuFile::Source(sf)) => sf,
        Ok(BuFile::Inventory(_)) => return Ok(file_env),
        Err(ParseError::Syntax(_)) => return Ok(file_env),
        Err(ParseError::Aborted(m)) => return Err(m),
    };
    let path = join(dir.path.as_str(), name.as_str());
    let ghost bs = source_m(sf);
    let ghost start = terrs_m(errors@);
    assert(bs.take(0) =~= Seq::<BulletM>::empty());
    let mut i: usize = 0;
    while i < sf.bullets.len()
        invariant
            i <= sf.bullets.len(),
            bs == source_m(sf),
            (file_env@, terrs_m(errors@).skip(start.len() as int)) == funcs_tc(bs.take(i as int), path@, env@, is_skirmish),
            terrs_m(errors@).len() >= start.len(),
            terrs_m(errors@).take(start.len() as int) == start,
        decreases sf.bullets.len() - i,
    {
        assert(bs.take(i + 1).drop_last() =~= bs.take(i as int));
        assert(bs.take(i + 1).last() == bullet_m(sf.bullets@[i as int]));
        let func = &sf.bullets[i];
        let ghost before = terrs_m(errors@);
        let more = check_function(func, path.as_str(), env, is_skirmish);
        extend_terrs(errors, more);
        assert(terrs_m(errors@).skip(start.len() as int) =~= before.skip(start.len() as int) + terrs_m(more@));
        assert(terrs_m(errors@).take(start.len() as int) =~= before.take(start.len() as int));
        file_env.insert(owned(func.name.as_str()), signature_of(func));
        i = i + 1;
    }
    assert(bs.take(sf.bullets.len() as int) =~= bs);
    assert(terrs_m(errors@) =~= start + terrs_m(errors@).skip(start.len() as int));
    Ok(file_env)
}


/// Type-checks every sub-folder, in order; the result is the signatures they
/// offer, later ones taking precedence.
#[verifier::loop_isolation(false)]
fn check_subfolders(subdirs: &Vec<Folder>, errors: &mut Vec<TypeError>) -> (r: Result<TypeEnv, String>)
    requires
        trees_fit(folders_m(subdirs@)),
    ensures
        match folders_tc(folders_m(subdirs@)) {
            Ok((e, x)) => r matches Ok(env) && env@ == e && terrs_m(final(errors)@) == terrs_m(old(errors)@) + x,
            Err(m) => r matches Err(t) && t@ == m,
        },
    decreases subdirs, 0nat,
{
    let ghost s = folders_m(subdirs@);
    proof {
        lemma_folders_m(subdirs@);
        lemma_trees_fit(s);
    }
    let ghost start = terrs_m(errors@);
    let ghost mut acc: Seq<ErrM> = Seq::empty();
    let mut env = TypeEnv::new();
    assert(s.take(0) =~= Seq::<FolderM>::empty());
    assert(terrs_m(errors@) =~= start + acc);
    let mut i: usize = 0;
    while i < subdirs.len()
        invariant
            i <= subdirs.len(),
            terrs_m(errors@) == start + acc,
            folders_tc(s.take(i as int)) == Ok::<(Seq<(Seq<char>, SigM)>, Seq<ErrM>), Seq<char>>((env@, acc)),
        decreases subdirs.len() - i,
    {
        assert(s.take(i + 1).drop_last() =~= s.take(i as int));
        assert(s.take(i + 1).last() == s[i as int]);
        assert(tree_fits(s[i as int]));
        let ghost before = terrs_m(errors@);
        let ghost res = folder_tc(s[i as int]);
        match check_folder(&subdirs[i], errors) {
            Ok(sub_env) => {
                proof {
                    let x = match res { Ok((_, x)) => x, Err(_) => Seq::empty() };
                    assert(terrs_m(errors@) == before + x);
                    acc = acc + x;
                    assert(terrs_m(errors@) =~= start + acc);
                }
                env.extend(sub_env);
            },
            Err(m) => {
                proof { lemma_folders_tc_stop(s, i + 1); }
                return Err(m);
            },
        }
        i = i + 1;
    }
    assert(s.take(subdirs.len() as int) =~= s);
    Ok(env)
}

/// Type-checks a folder and everything below it, appending the errors found;
/// the result is the signatures the folder offers its parent.
fn check_folder(dir: &Folder, errors: &mut Vec<TypeError>) -> (r: Result<TypeEnv, String>)
    requires
        tree_fits(folder_m(*dir)),
    ensures
        match folder_tc(folder_m(*dir)) {
            Ok((e, x)) => r matches Ok(env) && env@ == e && terrs_m(final(errors)@) == terrs_m(old(errors)@) + x,
            Err(m) => r matches Err(t) && t@ == m,
        },
    decreases dir, 1nat,
{
    let ghost f = folder_m(*dir);
    assert(terrs_m(errors@) =~= terrs_m(errors@) + Seq::<ErrM>::empty());
    let inv = match read_inventory(dir) {
        Loaded::Found(i) => i,
        Loaded::Failed(_) => return Ok(TypeEnv::new()),
        Loaded::Aborted(m) => return Err(m),
    };
    proof { lemma_folders_m(dir.subdirs@); }
    if inv.rank == Rank::War {
        return check_subfolders(&dir.subdirs, errors);
    }
    let ghost start = terrs_m(errors@);
    let mut env = if inv.rank.has_sub_folders() {
        match check_subfolders(&dir.subdirs, errors) {
            Ok(e) => e,
            Err(m) => return Err(m),
        }
    } else {
        TypeEnv::new()
    };
    let ghost below = terrs_m(errors@);
    let ghost env0 = env@;
    let ghost below_res = if inv.rank != Rank::Skirmish {
        folders_tc(f.subdirs)
    } else {
        Ok::<(Seq<(Seq<char>, SigM)>, Seq<ErrM>), Seq<char>>((Seq::empty(), Seq::empty()))
    };
    proof {
        let xb = below.skip(start.len() as int);
        if inv.rank != Rank::Skirmish {
            let x = match folders_tc(f.subdirs) { Ok((_, x)) => x, Err(_) => Seq::empty() };
            assert(below == start + x);
            assert(xb =~= x);
        } else {
            assert(xb =~= Seq::<ErrM>::empty());
        }
        assert(below =~= start + xb);
        assert(below_res == Ok::<(Seq<(Seq<char>, SigM)>, Seq<ErrM>), Seq<char>>((env0, xb)));
    }
    let ghost mut acc: Seq<ErrM> = Seq::empty();
    let is_skirmish = inv.rank == Rank::Skirmish;
    let ghost es = crate::model::inventory_m(inv).entries;
    assert(es.take(0) =~= Seq::<EntryM>::empty());
    assert(terrs_m(errors@) =~= below + acc);
    let mut i: usize = 0;
    while i < inv.entries.len()
        invariant
            i <= inv.entries.len(),
            es == crate::model::inventory_m(inv).entries,
            f == folder_m(*dir),
            inventory_of(f) == LoadedM::Found(crate::model::inventory_m(inv)),
            inv.rank != Rank::War,
            below_res matches Ok((e0, _)) && e0 == env0,
            below_res == (if inv.rank != Rank::Skirmish {
                folders_tc(f.subdirs)
            } else {
                Ok::<(Seq<(Seq<char>, SigM)>, Seq<ErrM>), Seq<char>>((Seq::empty(), Seq::empty()))
            }),
            is_skirmish == (inv.rank == Rank::Skirmish),
            texts_fit(butexts_m(dir.files@)),
            terrs_m(errors@) == below + acc,
            entries_tc(f, es.take(i as int), env0, is_skirmish)
                == Ok::<(Seq<(Seq<char>, SigM)>, Seq<ErrM>), Seq<char>>((env@, acc)),
        decreases inv.entries.len() - i,
    {
        assert(es.take(i + 1).drop_last() =~= es.take(i as int));
        assert(es.take(i + 1).last() == crate::model::entry_m(inv.entries@[i as int]));
        let ghost before = terrs_m(errors@);
        let ghost res = source_tc(f, inv.entries@[i as int].file@, env@, is_skirmish);
        match check_source_file(dir, inv.entries[i].file.as_str(), &env, is_skirmish, errors) {
            Ok(file_env) => {
                proof {
                    let x = match res { Ok((_, x)) => x, Err(_) => Seq::empty() };
                    assert(terrs_m(errors@) == before + x);
                    acc = acc + x;
                    assert(terrs_m(errors@) =~= below + acc);
                }
                env.extend(file_env);
            },
            Err(m) => {
                proof { lemma_entries_tc_stop(f, es, i + 1, env0, is_skirmish); }
                return Err(m);
            },
        }
        i = i + 1;
    }
    assert(es.take(inv.entries.len() as int) =~= es);
    Ok(env)
}

/// Type-checks a whole project tree: every error found, or the message the
/// tool stops with when a file lies outside the language.
pub fn typecheck_tree(root: &Folder) -> (r: Result<Vec<TypeError>, String>)
    requires
        tree_fits(folder_m(*root)),
    ensures
        match folder_tc(folder_m(*root)) {
            Ok((_, x)) => r matches Ok(v) && terrs_m(v@) == x,
            Err(m) => r matches Err(t) && t@ == m,
        },
{
    let mut errors: Vec<TypeError> = Vec::new();
    assert(terrs_m(errors@) =~= Seq::<ErrM>::empty());
    match check_folder(root, &mut errors) {
        Ok(_) => Ok(errors),
        Err(m) => Err(m),
    }
}


// ── Laws ─────────────────────────────────────────────────────────────────────

/// Every type agrees with itself.
pub proof fn law_compatible_reflexive(a: TyModel)
    ensures
        compatible(a, a),
{
}

/// Agreement of types does not depend on their order.
pub proof fn law_compatible_symmetric(a: TyModel, b: TyModel)
    ensures
        compatible(a, b) == compatible(b, a),
{
}

/// An unknown type agrees with every type.
pub proof fn law_unknown_compatible(a: TyModel)
    ensures
        compatible(TyModel::Unknown, a),
        compatible(a, TyModel::Unknown),
{
}

/// Two named types agree exactly when their names are equal once all
/// whitespace is removed.
pub proof fn law_names_up_to_whitespace(x: Seq<char>, y: Seq<char>)
    ensures
        compatible(TyModel::Named(x), TyModel::Named(y)) == (strip_ws(x) == strip_ws(y)),
        strip_ws(x) == x.filter(|c: char| !is_ws(c)),
        strip_ws(y) == y.filter(|c: char| !is_ws(c)),
{
    lemma_strip_ws_filter(x);
    lemma_strip_ws_filter(y);
}

/// Removing whitespace keeps the other characters, in order.
proof fn lemma_strip_ws_filter(s: Seq<char>)
    ensures
        strip_ws(s) == s.filter(|c: char| !is_ws(c)),
    decreases s.len(),
{
    reveal(Seq::filter);
    if s.len() > 0 {
        lemma_strip_ws_filter(s.drop_last());
    }
}

/// Two known types that are not both named agree only when they are equal.
pub proof fn law_other_types_equal(a: TyModel, b: TyModel)
    requires
        !(a is Unknown),
        !(b is Unknown),
        !(a is Named && b is Named),
    ensures
        compatible(a, b) == (a == b),
{
}


/// Argument `a` suits a parameter of type `p`: a value whose local type is
/// known agrees with `p`; a reference to a known function has a function
/// type that agrees with `p`.
pub open spec fn arg_suits(c: TcCtx, a: ArgM, p: TyModel) -> bool {
    match a {
        ArgM::Value(v) => local_ty(c.local, v) is Unknown || compatible(local_ty(c.local, v), p),
        ArgM::Ref(r) => match lookup(c.env, r) {
            Some(rs) => compatible(fn_type(rs), p),
            None => true,
        },
    }
}

proof fn lemma_args_positional(c: TcCtx, name: Seq<char>, args: Seq<ArgM>, params: Seq<TyModel>)
    requires
        args.len() <= params.len(),
    ensures
        args_errs(c, name, args, params).len() == 0
            <==> forall|k: int| 0 <= k < args.len() ==> arg_suits(c, #[trigger] args[k], params[k]),
        forall|k: int, e: ErrM| #![trigger arg_err(c, name, args[k], params[k], (k + 1) as nat).contains(e)]
            0 <= k < args.len() && arg_err(c, name, args[k], params[k], (k + 1) as nat).contains(e)
            ==> args_errs(c, name, args, params).contains(e),
    decreases args.len(),
{
    if args.len() > 0 {
        let pre = args.drop_last();
        lemma_args_positional(c, name, pre, params);
        let n = args.len() - 1;
        let a = args_errs(c, name, pre, params);
        let b = arg_err(c, name, args[n], params[n], args.len() as nat);
        assert(args.last() == args[n]);
        assert(args_errs(c, name, args, params) == a + b);
        assert(b.len() == 0 <==> arg_suits(c, args[n], params[n]));
        if args_errs(c, name, args, params).len() == 0 {
            assert forall|k: int| 0 <= k < args.len() implies arg_suits(c, #[trigger] args[k], params[k]) by {
                if k < n {
                    assert(pre[k] == args[k]);
                }
            }
        }
        if forall|k: int| 0 <= k < args.len() ==> arg_suits(c, #[trigger] args[k], params[k]) {
            assert forall|k: int| 0 <= k < pre.len() implies arg_suits(c, #[trigger] pre[k], params[k]) by {
                assert(pre[k] == args[k]);
                assert(arg_suits(c, args[k], params[k]));
            }
        }
        assert forall|k: int, e: ErrM| #![trigger arg_err(c, name, args[k], params[k], (k + 1) as nat).contains(e)]
            0 <= k < args.len() && arg_err(c, name, args[k], params[k], (k + 1) as nat).contains(e)
            implies args_errs(c, name, args, params).contains(e) by {
            if k < n {
                assert(pre[k] == args[k]);
                assert(arg_err(c, name, pre[k], params[k], (k + 1) as nat).contains(e));
                let i = choose|i: int| 0 <= i < a.len() && a[i] == e;
                assert((a + b)[i] == e);
            } else {
                let i = choose|i: int| 0 <= i < b.len() && b[i] == e;
                assert((a + b)[a.len() + i] == e);
            }
        }
    }
}

/// Argument `k` of a call is checked against parameter `k` of the callee: a
/// call with as many arguments as the callee has parameters is free of
/// errors exactly when each argument suits the parameter at its position,
/// and each value argument that does not is reported with its position and
/// the type of that parameter.
pub proof fn law_call_arguments_checked_by_position(c: TcCtx, name: Seq<char>, args: Seq<ArgM>, sig: SigM)
    requires
        !c.is_skirmish,
        lookup(c.env, name) == Some(sig),
        args.len() == sig.params.len(),
    ensures
        infer_atom_m(c, AtomM::Call(name, args)).0 == sig.returns,
        infer_atom_m(c, AtomM::Call(name, args)).1.len() == 0
            <==> forall|k: int| 0 <= k < args.len() ==> arg_suits(c, #[trigger] args[k], sig.params[k]),
        forall|k: int| 0 <= k < args.len() && (#[trigger] args[k]) is Value
            && !arg_suits(c, args[k], sig.params[k]) ==> infer_atom_m(c, AtomM::Call(name, args)).1.contains(
                tc_err(c, m_arg_type(c.func, (k + 1) as nat, name, tm_text(local_ty(c.local, args[k]->Value_0)), tm_text(sig.params[k]))),
            ),
{
    lemma_args_positional(c, name, args, sig.params);
    assert forall|k: int| 0 <= k < args.len() && (#[trigger] args[k]) is Value
        && !arg_suits(c, args[k], sig.params[k]) implies infer_atom_m(c, AtomM::Call(name, args)).1.contains(
            tc_err(c, m_arg_type(c.func, (k + 1) as nat, name, tm_text(local_ty(c.local, args[k]->Value_0)), tm_text(sig.params[k]))),
        ) by {
        let v = args[k]->Value_0;
        let e = tc_err(c, m_arg_type(c.func, (k + 1) as nat, name, tm_text(local_ty(c.local, v)), tm_text(sig.params[k])));
        let ae = arg_err(c, name, args[k], sig.params[k], (k + 1) as nat);
        assert(ae == seq![e]);
        assert(ae[0] == e);
        assert(ae.contains(e));
    }
}


/// A binary operator takes two operands of one numeric type and gives that
/// type, adding no error of its own; operands of two different known types,
/// or of one known non-numeric type, are reported and give an unknown type;
/// an operand of unknown type gives an unknown type with no error added.
pub proof fn law_binary_operators(c: TcCtx, l: AtomM, op: Seq<char>, r: AtomM)
    ensures
        ({
            let (lt, le) = infer_atom_m(c, l);
            let (rt, re) = infer_atom_m(c, r);
            let (t, es) = infer_expr_m(c, ExprM::Bin(l, op, r));
            &&& es.subrange(0, (le + re).len() as int) == le + re
            &&& (lt is Unknown || rt is Unknown) ==> t is Unknown && es == le + re
            &&& (!(lt is Unknown) && !(rt is Unknown) && lt != rt) ==> t is Unknown
                && es == (le + re).push(tc_err(c, m_op_same(c.func, op, tm_text(lt), tm_text(rt))))
            &&& (!(lt is Unknown) && lt == rt && !tm_numeric(lt)) ==> t is Unknown
                && es == (le + re).push(tc_err(c, m_op_numeric(c.func, op, tm_text(lt))))
            &&& (lt == rt && tm_numeric(lt)) ==> t == lt && es == le + re
        }),
{
    let (lt, le) = infer_atom_m(c, l);
    let (rt, re) = infer_atom_m(c, r);
    let x = le + re;
    assert(x.subrange(0, x.len() as int) =~= x);
    assert(x.push(tc_err(c, m_op_same(c.func, op, tm_text(lt), tm_text(rt)))).subrange(0, x.len() as int) =~= x);
    assert(x.push(tc_err(c, m_op_numeric(c.func, op, tm_text(lt)))).subrange(0, x.len() as int) =~= x);
}

/// The last pipe of a function must produce a type that agrees with the
/// declared output: when it does not, the function is reported at that pipe.
pub proof fn law_last_pipe_matches_output(ps: Seq<PipeM>, b: BulletM, file: Seq<char>, env: Seq<(Seq<char>, SigM)>, sk: bool)
    requires
        ps.len() > 0,
    ensures
        ({
            let local = pipes_tc(ps.drop_last(), ps.len() - 1, b, file, env, sk).0;
            let p = ps.last();
            let c = TcCtx { local, env, is_skirmish: sk, func: b.name, file, line: p.line, col: p.col };
            let t = infer_expr_m(c, p.expr).0;
            !compatible(t, b.out_ty) ==> pipes_tc(ps, ps.len() - 1, b, file, env, sk).1.contains(
                tc_err(c, m_last_output(b.name, tm_text(t), tm_text(b.out_ty))),
            )
        }),
{
    let (local, errs) = pipes_tc(ps.drop_last(), ps.len() - 1, b, file, env, sk);
    let p = ps.last();
    let c = TcCtx { local, env, is_skirmish: sk, func: b.name, file, line: p.line, col: p.col };
    let (t, e) = infer_expr_m(c, p.expr);
    if !compatible(t, b.out_ty) {
        let x = tc_err(c, m_last_output(b.name, tm_text(t), tm_text(b.out_ty)));
        let all = errs + e + seq![x];
        assert(pipes_tc(ps, ps.len() - 1, b, file, env, sk).1 == all);
        assert(all[all.len() - 1] == x);
    }
}


/// Each pipe binds its name to the type inferred for its expression: later
/// pipes see that name with that type.
pub proof fn law_binding_takes_inferred_type(ps: Seq<PipeM>, last: int, b: BulletM, file: Seq<char>, env: Seq<(Seq<char>, SigM)>, sk: bool, k: int)
    requires
        0 <= k < ps.len(),
    ensures
        ({
            let before = pipes_tc(ps.take(k), last, b, file, env, sk).0;
            let p = ps[k];
            let c = TcCtx { local: before, env, is_skirmish: sk, func: b.name, file, line: p.line, col: p.col };
            local_ty(pipes_tc(ps.take(k + 1), last, b, file, env, sk).0, p.binding) == infer_expr_m(c, p.expr).0
        }),
{
    assert(ps.take(k + 1).drop_last() =~= ps.take(k));
    assert(ps.take(k + 1).last() == ps[k]);
    let before = pipes_tc(ps.take(k), last, b, file, env, sk).0;
    let p = ps[k];
    let c = TcCtx { local: before, env, is_skirmish: sk, func: b.name, file, line: p.line, col: p.col };
    law_lookup_after_insert(before, p.binding, infer_expr_m(c, p.expr).0, p.binding);
}

} // verus!
