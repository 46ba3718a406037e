//! Structural validation: the hierarchy rules, the size limits, and the rules
//! on how a function's pipes bind and use names.

pub mod inventory;

use vstd::prelude::*;
use crate::ast::{Atom, Bullet, BulletBody, CallArg, Expr, Param, Pipe, Rank, SourceFile};
use crate::model::{
    ArgM, AtomM, BodyM, BulletM, ExprM, ParamM, PipeM, arg_m, args_m, atom_m, body_m, bullet_m,
    bullets_m, expr_m, exprs_m, lemma_exprs_m, param_m, params_m, pipe_m, pipes_m, source_m, strs_m,
};
use crate::ast::{InventoryFile, rank_child, rank_name};
use crate::model::{EntryM, InventoryM, inventory_m};
use crate::project::{
    BuText, BuTextM, Folder, FolderM, Loaded, LoadedM, butext_m, butexts_m, collect_bu_files,
    find_file, folder_m, folders_m, inventory_of, join, join_path, lemma_folders_m, lemma_trees_fit,
    load_source, main_bu_path, read_inventory, refs_m, source_loaded, sources, text_fits, texts_fit, tree_fits,
    trees_fit,
};
use crate::text::{contains_str, copy_strs, decimal, owned, str_eq, usize_to_string};
use self::inventory::{chain, check_m, completeness, validate_inventory_completeness};

verus! {

// ── Error type ───────────────────────────────────────────────────────────────

/// A structural error, located by file and (when known) line and column.
#[derive(Debug, Clone)]
pub struct ValidationError {
    pub file: String,
    pub line: usize,
    pub col: usize,
    pub message: String,
}

pub struct ErrM {
    pub file: Seq<char>,
    pub line: nat,
    pub col: nat,
    pub message: Seq<char>,
}

pub open spec fn err_m(e: ValidationError) -> ErrM {
    ErrM { file: e.file@, line: e.line as nat, col: e.col as nat, message: e.message@ }
}

pub open spec fn errs_m(s: Seq<ValidationError>) -> Seq<ErrM> {
    s.map_values(|e: ValidationError| err_m(e))
}

/// An error at a source position.
pub open spec fn at_span(file: Seq<char>, line: nat, col: nat, message: Seq<char>) -> ErrM {
    ErrM { file, line, col, message }
}

/// An error about a whole file (no position).
pub open spec fn whole(file: Seq<char>, message: Seq<char>) -> ErrM {
    ErrM { file, line: 0, col: 0, message }
}

/// `[file:line:col] message`, or `[file] message` when the line is 0.
pub open spec fn err_text(e: ErrM) -> Seq<char> {
    if e.line > 0 {
        "["@ + e.file + ":"@ + decimal(e.line) + ":"@ + decimal(e.col) + "] "@ + e.message
    } else {
        "["@ + e.file + "] "@ + e.message
    }
}

impl ValidationError {
    /// The error as the tool prints it.
    pub fn render(&self) -> (r: String)
        ensures
            r@ == err_text(err_m(*self)),
    {
        let mut r = owned("[");
        r.append(self.file.as_str());
        if self.line > 0 {
            r.append(":");
            r.append(usize_to_string(self.line).as_str());
            r.append(":");
            r.append(usize_to_string(self.col).as_str());
        }
        r.append("] ");
        r.append(self.message.as_str());
        assert(r@ =~= err_text(err_m(*self)));
        r
    }
}

fn ferr(file: &str, message: String) -> (e: ValidationError)
    ensures
        err_m(e) == whole(file@, message@),
{
    ValidationError { file: owned(file), line: 0, col: 0, message }
}

fn serr(file: &str, line: usize, col: usize, message: String) -> (e: ValidationError)
    ensures
        err_m(e) == at_span(file@, line as nat, col as nat, message@),
{
    ValidationError { file: owned(file), line, col, message }
}

fn push_err(errors: &mut Vec<ValidationError>, e: ValidationError)
    ensures
        errs_m(final(errors)@) == errs_m(old(errors)@).push(err_m(e)),
{
    let ghost before = errors@;
    errors.push(e);
    assert(errs_m(errors@) =~= errs_m(before).push(err_m(e)));
}

fn extend_errs(errors: &mut Vec<ValidationError>, more: Vec<ValidationError>)
    ensures
        errs_m(final(errors)@) == errs_m(old(errors)@) + errs_m(more@),
{
    let ghost before = errors@;
    let ghost added = more@;
    let mut more = more;
    errors.append(&mut more);
    assert(errs_m(errors@) =~= errs_m(before) + errs_m(added));
}

// ── Messages ─────────────────────────────────────────────────────────────────

pub open spec fn m_unknown_input(func: Seq<char>, n: nat, input: Seq<char>) -> Seq<char> {
    "Function '"@ + func + "' bullet "@ + decimal(n) + ": '"@ + input + "' is an unknown parameter."@
}

pub open spec fn m_skirmish_call(func: Seq<char>, name: Seq<char>) -> Seq<char> {
    "Function '"@ + func + "': skirmish files cannot call other functions (found call to '"@ + name
        + "')."@
}

pub open spec fn m_call_unlisted(func: Seq<char>, name: Seq<char>) -> Seq<char> {
    "Function '"@ + func + "': calls '"@ + name + "' which is not listed in any child inventory."@
}

pub open spec fn m_ref_unlisted(func: Seq<char>, name: Seq<char>) -> Seq<char> {
    "Function '"@ + func + "': references '&"@ + name + "' which is not listed in any child inventory."@
}

pub open spec fn m_assigned_twice(func: Seq<char>, b: Seq<char>) -> Seq<char> {
    "Function '"@ + func + "': '{"@ + b + "}' is assigned more than once."@
}

pub open spec fn m_last_mismatch(func: Seq<char>, b: Seq<char>, out: Seq<char>) -> Seq<char> {
    "Function '"@ + func + "': last bullet output '{"@ + b + "}' must match function output '{"@ + out
        + "}'."@
}

pub open spec fn m_unused(func: Seq<char>, b: Seq<char>) -> Seq<char> {
    "Function '"@ + func + "': '{"@ + b + "}' is produced but never used."@
}

pub open spec fn m_too_many_bullets(func: Seq<char>, n: nat) -> Seq<char> {
    "Function '"@ + func + "': cannot contain more than 5 bullets (found "@ + decimal(n) + ")."@
}

pub open spec fn m_too_many_functions(n: nat) -> Seq<char> {
    "A source file cannot contain more than 5 functions (found "@ + decimal(n) + ")."@
}

fn msg2(a: &str, b: &str, c: &str) -> (r: String)
    ensures r@ == a@ + b@ + c@,
{
    let mut r = owned(a);
    r.append(b);
    r.append(c);
    r
}

fn msg3(a: &str, b: &str, c: &str, d: &str, e: &str) -> (r: String)
    ensures r@ == a@ + b@ + c@ + d@ + e@,
{
    let mut r = owned(a);
    r.append(b);
    r.append(c);
    r.append(d);
    r.append(e);
    r
}

fn msg4(a: &str, b: &str, c: &str, d: &str, e: &str, f: &str, g: &str) -> (r: String)
    ensures r@ == a@ + b@ + c@ + d@ + e@ + f@ + g@,
{
    let mut r = owned(a);
    r.append(b);
    r.append(c);
    r.append(d);
    r.append(e);
    r.append(f);
    r.append(g);
    r
}

// ── Calls ────────────────────────────────────────────────────────────────────

/// Errors for the `&name` arguments of a call that no child lists.
pub open spec fn ref_errs(
    args: Seq<ArgM>,
    func: Seq<char>,
    file: Seq<char>,
    line: nat,
    col: nat,
    callable: Seq<Seq<char>>,
) -> Seq<ErrM>
    decreases args.len(),
{
    if args.len() == 0 {
        Seq::empty()
    } else {
        let rest = ref_errs(args.drop_last(), func, file, line, col, callable);
        match args.last() {
            ArgM::Ref(r) => if callable.len() > 0 && !callable.contains(r) {
                rest.push(at_span(file, line, col, m_ref_unlisted(func, r)))
            } else {
                rest
            },
            ArgM::Value(_) => rest,
        }
    }
}

/// Errors for one operand: calls are refused in skirmish files, and calls
/// and references must name a function that some child inventory lists
/// (when the children list any).
pub open spec fn atom_errs(
    a: AtomM,
    func: Seq<char>,
    file: Seq<char>,
    line: nat,
    col: nat,
    callable: Seq<Seq<char>>,
    is_skirmish: bool,
) -> Seq<ErrM> {
    match a {
        AtomM::Call(name, args) => if is_skirmish {
            seq![at_span(file, line, col, m_skirmish_call(func, name))]
        } else {
            (if callable.len() > 0 && !callable.contains(name) {
                seq![at_span(file, line, col, m_call_unlisted(func, name))]
            } else {
                Seq::empty()
            }) + ref_errs(args, func, file, line, col, callable)
        },
        _ => Seq::empty(),
    }
}

pub open spec fn expr_errs(
    e: ExprM,
    func: Seq<char>,
    file: Seq<char>,
    line: nat,
    col: nat,
    callable: Seq<Seq<char>>,
    is_skirmish: bool,
) -> Seq<ErrM>
    decreases e,
{
    match e {
        ExprM::Atom(a) => atom_errs(a, func, file, line, col, callable, is_skirmish),
        ExprM::Bin(l, _, r) => atom_errs(l, func, file, line, col, callable, is_skirmish) + atom_errs(
            r,
            func,
            file,
            line,
            col,
            callable,
            is_skirmish,
        ),
        ExprM::Tuple(xs) => exprs_errs(xs, func, file, line, col, callable, is_skirmish),
    }
}

pub open spec fn exprs_errs(
    xs: Seq<ExprM>,
    func: Seq<char>,
    file: Seq<char>,
    line: nat,
    col: nat,
    callable: Seq<Seq<char>>,
    is_skirmish: bool,
) -> Seq<ErrM>
    decreases xs,
{
    if xs.len() == 0 {
        Seq::empty()
    } else {
        exprs_errs(xs.drop_last(), func, file, line, col, callable, is_skirmish) + expr_errs(
            xs.last(),
            func,
            file,
            line,
            col,
            callable,
            is_skirmish,
        )
    }
}

fn check_atom(
    atom: &Atom,
    func_name: &str,
    path: &str,
    line: usize,
    col: usize,
    callable: &Vec<String>,
    is_skirmish: bool,
    errors: &mut Vec<ValidationError>,
)
    ensures
        errs_m(final(errors)@) == errs_m(old(errors)@) + atom_errs(
            atom_m(*atom),
            func_name@,
            path@,
            line as nat,
            col as nat,
            strs_m(callable@),
            is_skirmish,
        ),
{
    let ghost start = errs_m(errors@);
    if let Atom::Call { name, args } = atom {
        if is_skirmish {
            push_err(
                errors,
                serr(path, line, col, msg3("Function '", func_name,
                    "': skirmish files cannot call other functions (found call to '", name.as_str(),
                    "').")),
            );
            assert(errs_m(errors@) =~= start + atom_errs(atom_m(*atom), func_name@, path@, line as nat, col as nat, strs_m(callable@), is_skirmish));
            return;
        }
        let nonempty = callable.len() > 0;
        if nonempty && !contains_str(callable, name.as_str()) {
            push_err(
                errors,
                serr(path, line, col, msg3("Function '", func_name, "': calls '", name.as_str(),
                    "' which is not listed in any child inventory.")),
            );
        }
        let ghost mid = errs_m(errors@);
        let mut i: usize = 0;
        while i < args.len()
            invariant
                i <= args.len(),
                nonempty == (strs_m(callable@).len() > 0),
                errs_m(errors@) == mid + ref_errs(args_m(args@).take(i as int), func_name@, path@, line as nat, col as nat, strs_m(callable@)),
            decreases args.len() - i,
        {
            assert(args_m(args@).take(i + 1).drop_last() =~= args_m(args@).take(i as int));
            assert(args_m(args@).take(i + 1).last() == arg_m(args@[i as int]));
            if let CallArg::BulletRef(r) = &args[i] {
                if nonempty && !contains_str(callable, r.as_str()) {
                    push_err(
                        errors,
                        serr(path, line, col, msg3("Function '", func_name, "': references '&",
                            r.as_str(), "' which is not listed in any child inventory.")),
                    );
                }
            }
            i = i + 1;
        }
        assert(args_m(args@).take(args.len() as int) =~= args_m(args@));
        assert(errs_m(errors@) =~= start + atom_errs(atom_m(*atom), func_name@, path@, line as nat, col as nat, strs_m(callable@), is_skirmish));
    } else {
        assert(errs_m(errors@) =~= start + atom_errs(atom_m(*atom), func_name@, path@, line as nat, col as nat, strs_m(callable@), is_skirmish));
    }
}

#[verifier::loop_isolation(false)]
fn collect_call_errors(
    expr: &Expr,
    func_name: &str,
    path: &str,
    line: usize,
    col: usize,
    callable: &Vec<String>,
    is_skirmish: bool,
    errors: &mut Vec<ValidationError>,
)
    ensures
        errs_m(final(errors)@) == errs_m(old(errors)@) + expr_errs(
            expr_m(*expr),
            func_name@,
            path@,
            line as nat,
            col as nat,
            strs_m(callable@),
            is_skirmish,
        ),
    decreases expr,
{
    let ghost start = errs_m(errors@);
    match expr {
        Expr::Atom(a) => check_atom(a, func_name, path, line, col, callable, is_skirmish, errors),
        Expr::BinOp(b) => {
            check_atom(&b.lhs, func_name, path, line, col, callable, is_skirmish, errors);
            check_atom(&b.rhs, func_name, path, line, col, callable, is_skirmish, errors);
            assert(errs_m(errors@) =~= start + expr_errs(expr_m(*expr), func_name@, path@, line as nat, col as nat, strs_m(callable@), is_skirmish));
        },
        Expr::Tuple(exprs) => {
            let ghost xs = exprs_m(exprs@);
            proof { lemma_exprs_m(exprs@); }
            let mut i: usize = 0;
            while i < exprs.len()
                invariant
                    i <= exprs.len(),
                    errs_m(errors@) == start + exprs_errs(xs.take(i as int), func_name@, path@, line as nat, col as nat, strs_m(callable@), is_skirmish),
                decreases exprs.len() - i,
            {
                assert(xs.take(i + 1).drop_last() =~= xs.take(i as int));
                assert(xs.take(i + 1).last() == expr_m(exprs@[i as int]));
                collect_call_errors(&exprs[i], func_name, path, line, col, callable, is_skirmish, errors);
                assert(errs_m(errors@) =~= start + exprs_errs(xs.take(i + 1), func_name@, path@, line as nat, col as nat, strs_m(callable@), is_skirmish));
                i = i + 1;
            }
            assert(xs.take(exprs.len() as int) =~= xs);
        },
    }
}


// ── Pipes ────────────────────────────────────────────────────────────────────

/// What the pipes read so far have produced: errors, the names bound (each
/// once, in order of first binding) and the names consumed.
pub struct PipeScan {
    pub errs: Seq<ErrM>,
    pub bound: Seq<Seq<char>>,
    pub consumed: Seq<Seq<char>>,
}

pub open spec fn param_names(ps: Seq<ParamM>) -> Seq<Seq<char>> {
    ps.map_values(|p: ParamM| p.name)
}

/// One input of pipe number `n`: it must be a parameter or a name bound earlier.
pub open spec fn input_step(
    st: PipeScan,
    x: Seq<char>,
    params: Seq<Seq<char>>,
    func: Seq<char>,
    file: Seq<char>,
    line: nat,
    col: nat,
    n: nat,
) -> PipeScan {
    if params.contains(x) || st.bound.contains(x) {
        PipeScan { consumed: st.consumed.push(x), ..st }
    } else {
        PipeScan { errs: st.errs.push(at_span(file, line, col, m_unknown_input(func, n, x))), ..st }
    }
}

pub open spec fn inputs_step(
    st: PipeScan,
    xs: Seq<Seq<char>>,
    params: Seq<Seq<char>>,
    func: Seq<char>,
    file: Seq<char>,
    line: nat,
    col: nat,
    n: nat,
) -> PipeScan
    decreases xs.len(),
{
    if xs.len() == 0 {
        st
    } else {
        input_step(inputs_step(st, xs.drop_last(), params, func, file, line, col, n), xs.last(), params, func, file, line, col, n)
    }
}

/// Pipe number `i` (0-based) of a function whose last pipe is number `last`.
pub open spec fn pipe_step(
    st: PipeScan,
    p: PipeM,
    i: nat,
    last: nat,
    params: Seq<Seq<char>>,
    func: Seq<char>,
    out_name: Seq<char>,
    file: Seq<char>,
    callable: Seq<Seq<char>>,
    is_skirmish: bool,
) -> PipeScan {
    let st1 = inputs_step(st, p.inputs, params, func, file, p.line, p.col, i + 1);
    let e2 = st1.errs + expr_errs(p.expr, func, file, p.line, p.col, callable, is_skirmish);
    let e3 = if st1.bound.contains(p.binding) {
        e2.push(at_span(file, p.line, p.col, m_assigned_twice(func, p.binding)))
    } else {
        e2
    };
    let e4 = if i == last && p.binding != out_name {
        e3.push(at_span(file, p.line, p.col, m_last_mismatch(func, p.binding, out_name)))
    } else {
        e3
    };
    PipeScan {
        errs: e4,
        bound: if st1.bound.contains(p.binding) { st1.bound } else { st1.bound.push(p.binding) },
        consumed: st1.consumed,
    }
}

/// The scan after the first `k` pipes.
pub open spec fn pipes_scan(
    init: PipeScan,
    ps: Seq<PipeM>,
    k: nat,
    params: Seq<Seq<char>>,
    func: Seq<char>,
    out_name: Seq<char>,
    file: Seq<char>,
    callable: Seq<Seq<char>>,
    is_skirmish: bool,
) -> PipeScan
    decreases k,
{
    if k == 0 {
        init
    } else {
        let last: nat = if ps.len() == 0 { 0 } else { (ps.len() - 1) as nat };
        pipe_step(
            pipes_scan(init, ps, (k - 1) as nat, params, func, out_name, file, callable, is_skirmish),
            ps[k - 1],
            (k - 1) as nat,
            last,
            params,
            func,
            out_name,
            file,
            callable,
            is_skirmish,
        )
    }
}

/// A name bound, other than the output, that no later pipe consumed.
pub open spec fn unused_errs(
    bound: Seq<Seq<char>>,
    consumed: Seq<Seq<char>>,
    out_name: Seq<char>,
    func: Seq<char>,
    file: Seq<char>,
) -> Seq<ErrM>
    decreases bound.len(),
{
    if bound.len() == 0 {
        Seq::empty()
    } else {
        let rest = unused_errs(bound.drop_last(), consumed, out_name, func, file);
        let b = bound.last();
        if b != out_name && !consumed.contains(b) {
            rest.push(whole(file, m_unused(func, b)))
        } else {
            rest
        }
    }
}

/// All structural errors of a pipe chain.
pub open spec fn bullets_errs(
    ps: Seq<PipeM>,
    func: Seq<char>,
    out_name: Seq<char>,
    params: Seq<ParamM>,
    file: Seq<char>,
    callable: Seq<Seq<char>>,
    is_skirmish: bool,
) -> Seq<ErrM> {
    let init = PipeScan {
        errs: if ps.len() > 5 {
            seq![whole(file, m_too_many_bullets(func, ps.len()))]
        } else {
            Seq::empty()
        },
        bound: Seq::empty(),
        consumed: Seq::empty(),
    };
    let st = pipes_scan(init, ps, ps.len(), param_names(params), func, out_name, file, callable, is_skirmish);
    st.errs + unused_errs(st.bound, st.consumed, out_name, func, file)
}

fn param_named(params: &Vec<Param>, x: &str) -> (r: bool)
    ensures
        r == param_names(params_m(params@)).contains(x@),
{
    let ghost names = param_names(params_m(params@));
    let mut i: usize = 0;
    while i < params.len()
        invariant
            i <= params.len(),
            names == param_names(params_m(params@)),
            names.len() == params.len(),
            forall|j: int| 0 <= j < i ==> names[j] != x@,
        decreases params.len() - i,
    {
        assert(names[i as int] == params@[i as int].name@);
        if str_eq(params[i].name.as_str(), x) {
            return true;
        }
        i = i + 1;
    }
    false
}

fn push_str_list(v: &mut Vec<String>, x: String)
    ensures
        strs_m(final(v)@) == strs_m(old(v)@).push(x@),
{
    let ghost before = v@;
    v.push(x);
    assert(strs_m(v@) =~= strs_m(before).push(x@));
}

#[verifier::loop_isolation(false)]
fn validate_bullets(
    bullets: &Vec<Pipe>,
    func_name: &str,
    output_name: &str,
    params: &Vec<Param>,
    path: &str,
    callable: &Vec<String>,
    is_skirmish: bool,
) -> (errors: Vec<ValidationError>)
    ensures
        errs_m(errors@) == bullets_errs(
            pipes_m(bullets@),
            func_name@,
            output_name@,
            params_m(params@),
            path@,
            strs_m(callable@),
            is_skirmish,
        ),
{
    let ghost ps = pipes_m(bullets@);
    let ghost pn = param_names(params_m(params@));
    let ghost cl = strs_m(callable@);
    let mut errors: Vec<ValidationError> = Vec::new();
    if bullets.len() > 5 {
        push_err(&mut errors, ferr(path, msg3("Function '", func_name,
            "': cannot contain more than 5 bullets (found ", usize_to_string(bullets.len()).as_str(), ").")));
    }
    let ghost init = PipeScan { errs: errs_m(errors@), bound: Seq::empty(), consumed: Seq::empty() };
    assert(init.errs =~= (if ps.len() > 5 { seq![whole(path@, m_too_many_bullets(func_name@, ps.len()))] } else { Seq::<ErrM>::empty() }));
    let mut bound: Vec<String> = Vec::new();
    let mut consumed: Vec<String> = Vec::new();
    assert(strs_m(bound@) =~= Seq::<Seq<char>>::empty());
    assert(strs_m(consumed@) =~= Seq::<Seq<char>>::empty());
    let last: usize = if bullets.len() == 0 { 0 } else { bullets.len() - 1 };
    let mut i: usize = 0;
    while i < bullets.len()
        invariant
            i <= bullets.len(),
            ({
                let st = pipes_scan(init, ps, i as nat, pn, func_name@, output_name@, path@, cl, is_skirmish);
                &&& errs_m(errors@) == st.errs
                &&& strs_m(bound@) == st.bound
                &&& strs_m(consumed@) == st.consumed
            }),
        decreases bullets.len() - i,
    {
        let bullet = &bullets[i];
        let ghost p = ps[i as int];
        assert(p == pipe_m(*bullet));
        let ghost st0 = PipeScan { errs: errs_m(errors@), bound: strs_m(bound@), consumed: strs_m(consumed@) };
        let mut k: usize = 0;
        while k < bullet.inputs.len()
            invariant
                k <= bullet.inputs.len(),
                ({
                    let st = inputs_step(st0, p.inputs.take(k as int), pn, func_name@, path@, p.line, p.col, (i + 1) as nat);
                    &&& errs_m(errors@) == st.errs
                    &&& strs_m(bound@) == st.bound
                    &&& strs_m(consumed@) == st.consumed
                }),
            decreases bullet.inputs.len() - k,
        {
            let input = &bullet.inputs[k];
            assert(p.inputs.take(k + 1).drop_last() =~= p.inputs.take(k as int));
            assert(p.inputs.take(k + 1).last() == input@);
            if param_named(params, input.as_str()) || contains_str(&bound, input.as_str()) {
                push_str_list(&mut consumed, input.clone());
            } else {
                push_err(&mut errors, serr(path, bullet.span.line, bullet.span.col,
                    msg4("Function '", func_name, "' bullet ", usize_to_string(i + 1).as_str(), ": '",
                        input.as_str(), "' is an unknown parameter.")));
            }
            k = k + 1;
        }
        assert(p.inputs.take(bullet.inputs.len() as int) =~= p.inputs);
        collect_call_errors(&bullet.expr, func_name, path, bullet.span.line, bullet.span.col, callable, is_skirmish, &mut errors);
        let already = contains_str(&bound, bullet.binding.as_str());
        if already {
            push_err(&mut errors, serr(path, bullet.span.line, bullet.span.col,
                msg3("Function '", func_name, "': '{", bullet.binding.as_str(), "}' is assigned more than once.")));
        }
        if i == last && !str_eq(bullet.binding.as_str(), output_name) {
            let mut m = msg3("Function '", func_name, "': last bullet output '{", bullet.binding.as_str(),
                "}' must match function output '{");
            m.append(output_name);
            m.append("}'.");
            push_err(&mut errors, serr(path, bullet.span.line, bullet.span.col, m));
        }
        if !already {
            push_str_list(&mut bound, bullet.binding.clone());
        }
        i = i + 1;
    }
    let ghost st = pipes_scan(init, ps, ps.len(), pn, func_name@, output_name@, path@, cl, is_skirmish);
    let ghost mid = errs_m(errors@);
    let mut j: usize = 0;
    while j < bound.len()
        invariant
            j <= bound.len(),
            strs_m(bound@) == st.bound,
            strs_m(consumed@) == st.consumed,
            errs_m(errors@) == mid + unused_errs(st.bound.take(j as int), st.consumed, output_name@, func_name@, path@),
        decreases bound.len() - j,
    {
        assert(st.bound.take(j + 1).drop_last() =~= st.bound.take(j as int));
        assert(st.bound.take(j + 1).last() == bound@[j as int]@);
        let b = &bound[j];
        if !str_eq(b.as_str(), output_name) && !contains_str(&consumed, b.as_str()) {
            push_err(&mut errors, ferr(path, msg3("Function '", func_name, "': '{", b.as_str(),
                "}' is produced but never used.")));
        }
        j = j + 1;
    }
    assert(st.bound.take(bound.len() as int) =~= st.bound);
    errors
}


// ── Functions and files ──────────────────────────────────────────────────────

/// Errors of one function: its pipes are checked; native and builtin bodies are not.
pub open spec fn func_errs(b: BulletM, file: Seq<char>, callable: Seq<Seq<char>>, is_skirmish: bool) -> Seq<ErrM> {
    match b.body {
        BodyM::Pipes(ps) => bullets_errs(ps, b.name, b.out_name, b.params, file, callable, is_skirmish),
        _ => Seq::empty(),
    }
}

pub open spec fn funcs_errs(bs: Seq<BulletM>, file: Seq<char>, callable: Seq<Seq<char>>, is_skirmish: bool) -> Seq<ErrM>
    decreases bs.len(),
{
    if bs.len() == 0 {
        Seq::empty()
    } else {
        funcs_errs(bs.drop_last(), file, callable, is_skirmish) + func_errs(bs.last(), file, callable, is_skirmish)
    }
}

/// Errors of a source file: at most five functions, and each function's own errors.
pub open spec fn source_errs(bs: Seq<BulletM>, file: Seq<char>, callable: Seq<Seq<char>>, is_skirmish: bool) -> Seq<ErrM> {
    (if bs.len() > 5 { seq![whole(file, m_too_many_functions(bs.len()))] } else { Seq::empty() })
        + funcs_errs(bs, file, callable, is_skirmish)
}

fn validate_function(func: &Bullet, path: &str, callable: &Vec<String>, is_skirmish: bool) -> (errors: Vec<ValidationError>)
    ensures
        errs_m(errors@) == func_errs(bullet_m(*func), path@, strs_m(callable@), is_skirmish),
{
    match &func.body {
        BulletBody::Pipes(pipes) => validate_bullets(
            pipes,
            func.name.as_str(),
            func.output.name.as_str(),
            &func.params,
            path,
            callable,
            is_skirmish,
        ),
        _ => {
            let v: Vec<ValidationError> = Vec::new();
            assert(errs_m(v@) =~= Seq::<ErrM>::empty());
            v
        },
    }
}

/// Appends the errors of every function of `sf`.
fn validate_functions(sf: &SourceFile, path: &str, callable: &Vec<String>, is_skirmish: bool, errors: &mut Vec<ValidationError>)
    ensures
        errs_m(final(errors)@) == errs_m(old(errors)@) + funcs_errs(source_m(*sf), path@, strs_m(callable@), is_skirmish),
{
    let ghost start = errs_m(errors@);
    let ghost bs = source_m(*sf);
    let mut i: usize = 0;
    while i < sf.bullets.len()
        invariant
            i <= sf.bullets.len(),
            bs == source_m(*sf),
            errs_m(errors@) == start + funcs_errs(bs.take(i as int), path@, strs_m(callable@), is_skirmish),
        decreases sf.bullets.len() - i,
    {
        assert(bs.take(i + 1).drop_last() =~= bs.take(i as int));
        assert(bs.take(i + 1).last() == bullet_m(sf.bullets@[i as int]));
        let more = validate_function(&sf.bullets[i], path, callable, is_skirmish);
        extend_errs(errors, more);
        assert(errs_m(errors@) =~= start + funcs_errs(bs.take(i + 1), path@, strs_m(callable@), is_skirmish));
        i = i + 1;
    }
    assert(bs.take(sf.bullets.len() as int) =~= bs);
}

/// Validates one source file on its own (the single-file mode of the tool).
pub fn validate_source_direct(sf: &SourceFile, path: &str, callable: &Vec<String>, rank: &Rank) -> (errors: Vec<ValidationError>)
    ensures
        errs_m(errors@) == source_errs(source_m(*sf), path@, strs_m(callable@), *rank == Rank::Skirmish),
{
    let mut errors: Vec<ValidationError> = Vec::new();
    let is_skirmish = *rank == Rank::Skirmish;
    if sf.bullets.len() > 5 {
        push_err(&mut errors, ferr(path, msg2("A source file cannot contain more than 5 functions (found ",
            usize_to_string(sf.bullets.len()).as_str(), ").")));
    }
    assert(errs_m(errors@) =~= (if source_m(*sf).len() > 5 { seq![whole(path@, m_too_many_functions(source_m(*sf).len()))] } else { Seq::<ErrM>::empty() }));
    validate_functions(sf, path, callable, is_skirmish, &mut errors);
    errors
}


// ── Folders ──────────────────────────────────────────────────────────────────

/// One error when `b` holds, else none.
pub open spec fn one(b: bool, e: ErrM) -> Seq<ErrM> {
    if b { seq![e] } else { Seq::empty() }
}

/// An ASCII lowercase letter made uppercase; any other character unchanged.
pub open spec fn upper(c: char) -> char {
    if 'a' <= c && c <= 'z' { ((c as int) - 32) as char } else { c }
}

/// The string with its first character made uppercase.
pub open spec fn capital(s: Seq<char>) -> Seq<char> {
    if s.len() == 0 { s } else { seq![upper(s[0])] + s.skip(1) }
}

/// The first character uppercased (for the ASCII names of ranks).
fn capitalize(s: &str) -> (r: String)
    requires
        s@.len() > 0 ==> (s@[0] as u32) < 128,
    ensures
        r@ == capital(s@),
{
    let v = crate::text::chars_of(s);
    if v.len() == 0 {
        return String::new();
    }
    let c = v[0];
    let mut first = c;
    if 'a' <= c && c <= 'z' {
        let b = c as u8;
        first = (b - 32) as char;
    }
    let mut r = String::new();
    crate::text::push_char(&mut r, first);
    let rest = crate::text::slice_string(&v, 1, v.len());
    r.append(rest.as_str());
    assert(r@ =~= capital(s@));
    r
}

pub open spec fn m_war_sources(n: nat) -> Seq<char> {
    "War folder cannot contain source files (found "@ + decimal(n) + "). Consider using a theater rank instead."@
}

pub open spec fn m_war_theaters(n: nat) -> Seq<char> {
    "War folder cannot exceed 5 theaters (found "@ + decimal(n) + ")."@
}

pub open spec fn m_skirmish_subdirs(n: nat) -> Seq<char> {
    "Skirmish folder cannot contain sub-folders (found "@ + decimal(n) + ")."@
}

pub open spec fn m_skirmish_sources(n: nat) -> Seq<char> {
    "Skirmish folder cannot contain more than 5 source files (found "@ + decimal(n) + ")."@
}

pub open spec fn m_rank_subdirs(r: Rank, c: Rank, n: nat) -> Seq<char> {
    capital(rank_name(r)) + " folder cannot contain more than 5 "@ + rank_name(c) + " sub-folders (found "@
        + decimal(n) + ")."@
}

pub open spec fn m_rank_sources(r: Rank, n: nat) -> Seq<char> {
    capital(rank_name(r)) + " folder cannot contain source files (found "@ + decimal(n)
        + "). Source files belong in skirmish folders."@
}

pub open spec fn m_unexpected_rank(actual: Rank, expected: Rank) -> Seq<char> {
    "Found unexpected '"@ + rank_name(actual) + "' in inventory. Consider replacing it with '"@
        + rank_name(expected) + "'."@
}

pub open spec fn m_no_inventory(name: Seq<char>, expected: Rank) -> Seq<char> {
    "Sub-folder '"@ + name + "' is missing inventory.bu (expected a "@ + rank_name(expected) + " folder)."@
}

pub open spec fn m_main_too_many(n: nat) -> Seq<char> {
    "main.bu cannot contain more than 5 functions (found "@ + decimal(n) + ")."@
}

/// The rank a sub-folder's inventory declares, against the rank it must have.
pub open spec fn child_rank_check(sub: FolderM, expected: Rank) -> Result<Seq<ErrM>, Seq<char>> {
    match inventory_of(sub) {
        LoadedM::Found(inv) => Ok(one(inv.rank != expected, whole(sub.path, m_unexpected_rank(inv.rank, expected)))),
        LoadedM::Failed(_) => Ok(seq![whole(sub.path, m_no_inventory(sub.name, expected))]),
        LoadedM::Aborted(m) => Err(m),
    }
}

pub open spec fn children_rank_check(subs: Seq<FolderM>, expected: Rank) -> Result<Seq<ErrM>, Seq<char>>
    decreases subs.len(),
{
    if subs.len() == 0 {
        Ok(Seq::empty())
    } else {
        chain(children_rank_check(subs.drop_last(), expected), child_rank_check(subs.last(), expected))
    }
}

/// Every function an inventory lists, entry by entry.
pub open spec fn listed_fns(es: Seq<EntryM>) -> Seq<Seq<char>>
    decreases es.len(),
{
    if es.len() == 0 { Seq::empty() } else { listed_fns(es.drop_last()) + es.last().functions }
}

/// The functions a folder offers its parent: those its inventory lists and,
/// below it, those of every sub-folder that has a readable inventory.
pub open spec fn folder_callable(f: FolderM) -> Result<Seq<Seq<char>>, Seq<char>>
    decreases f,
{
    match inventory_of(f) {
        LoadedM::Found(inv) => match folders_callable(f.subdirs) {
            Ok(c) => Ok(listed_fns(inv.entries) + c),
            Err(m) => Err(m),
        },
        LoadedM::Failed(_) => Ok(Seq::empty()),
        LoadedM::Aborted(m) => Err(m),
    }
}

pub open spec fn folders_callable(s: Seq<FolderM>) -> Result<Seq<Seq<char>>, Seq<char>>
    decreases s,
{
    if s.len() == 0 {
        Ok(Seq::empty())
    } else {
        match folders_callable(s.drop_last()) {
            Err(m) => Err(m),
            Ok(a) => match folder_callable(s.last()) {
                Err(m) => Err(m),
                Ok(b) => Ok(a + b),
            },
        }
    }
}

/// The check of `main.bu`: at most five functions, each valid; calls may go
/// to anything a child folder offers.
pub open spec fn main_check(mf: BuTextM, callable: Seq<Seq<char>>) -> Result<Seq<ErrM>, Seq<char>> {
    match source_loaded(mf, "Could not read main.bu: "@, "Parse error in main.bu: "@) {
        LoadedM::Found(bs) => Ok(one(bs.len() > 5, whole(mf.path, m_main_too_many(bs.len())))
            + funcs_errs(bs, mf.path, callable, false)),
        LoadedM::Failed(e) => Ok(seq![whole(mf.path, e)]),
        LoadedM::Aborted(m) => Err(m),
    }
}

/// The check of one source file of a folder of rank `rank`.
pub open spec fn source_check(b: BuTextM, rank: Rank, callable: Seq<Seq<char>>) -> Result<Seq<ErrM>, Seq<char>> {
    match source_loaded(b, "Could not read file: "@, "Parse error: "@) {
        LoadedM::Found(bs) => Ok(source_errs(bs, b.path, callable, rank == Rank::Skirmish)),
        LoadedM::Failed(e) => Ok(seq![whole(b.path, e)]),
        LoadedM::Aborted(m) => Err(m),
    }
}

pub open spec fn sources_check(bs: Seq<BuTextM>, rank: Rank, callable: Seq<Seq<char>>) -> Result<Seq<ErrM>, Seq<char>>
    decreases bs.len(),
{
    if bs.len() == 0 {
        Ok(Seq::empty())
    } else {
        chain(sources_check(bs.drop_last(), rank, callable), source_check(bs.last(), rank, callable))
    }
}

/// The optional `main.bu` of a folder, checked against `callable`.
pub open spec fn opt_main_check(main: Option<BuTextM>, callable: Seq<Seq<char>>) -> Result<Seq<ErrM>, Seq<char>> {
    match main {
        Some(mf) => main_check(mf, callable),
        None => Ok(Seq::empty()),
    }
}

/// A war folder: sub-folders only (at most five theaters), an inventory that
/// lists nothing, and an optional `main.bu`.
pub open spec fn war_check(f: FolderM, inv: InventoryM) -> Result<Seq<ErrM>, Seq<char>> {
    let nf = sources(f.files).len();
    let ns = f.subdirs.len();
    let main = find_file(f.files, "main.bu"@);
    chain(
        Ok(one(nf > 0, whole(f.path, m_war_sources(nf))) + one(ns > 5, whole(f.path, m_war_theaters(ns)))
            + one(inv.entries.len() > 0, whole(join_path(f.path, "inventory.bu"@), "War inventory cannot list any files."@))),
        chain(
            children_rank_check(f.subdirs, Rank::Theater),
            match main {
                Some(mf) => match folders_callable(f.subdirs) {
                    Ok(c) => main_check(mf, c),
                    Err(m) => Err(m),
                },
                None => Ok(Seq::empty()),
            },
        ),
    )
}

/// A skirmish folder: at most five source files, no sub-folder, no `main.bu`,
/// and source files that call no other function.
pub open spec fn skirmish_check(f: FolderM, inv: InventoryM) -> Result<Seq<ErrM>, Seq<char>> {
    let srcs = sources(f.files);
    let ns = f.subdirs.len();
    chain(
        Ok(one(ns > 0, whole(f.path, m_skirmish_subdirs(ns))) + one(srcs.len() > 5, whole(f.path, m_skirmish_sources(srcs.len())))
            + one(find_file(f.files, "main.bu"@) is Some, whole(join_path(f.path, "main.bu"@),
                "Skirmish folders cannot contain main.bu. Move your entry point to a tactic or higher rank folder."@))),
        chain(completeness(f.path, f.files, inv, srcs), sources_check(srcs, Rank::Skirmish, Seq::empty())),
    )
}

/// The `main.bu` of a folder, whose calls may go to what the sub-folders
/// offer.
pub open spec fn calls_check(f: FolderM) -> Result<Seq<ErrM>, Seq<char>> {
    match folders_callable(f.subdirs) {
        Ok(callable) => opt_main_check(find_file(f.files, "main.bu"@), callable),
        Err(m) => Err(m),
    }
}

/// A folder between war and skirmish: at most five sub-folders of the next
/// rank down and no source file (source files live only in skirmish
/// folders); an optional `main.bu` whose calls go to what the children offer.
pub open spec fn middle_check(f: FolderM, inv: InventoryM) -> Result<Seq<ErrM>, Seq<char>> {
    let r = inv.rank;
    let c = rank_child(r).unwrap();
    let srcs = sources(f.files);
    let ns = f.subdirs.len();
    chain(
        Ok(one(ns > 5, whole(f.path, m_rank_subdirs(r, c, ns))) + one(srcs.len() > 0, whole(f.path, m_rank_sources(r, srcs.len())))),
        chain(
            children_rank_check(f.subdirs, c),
            chain(completeness(f.path, f.files, inv, srcs), calls_check(f)),
        ),
    )
}

/// The rules of a folder's own rank.
pub open spec fn rank_check(f: FolderM, inv: InventoryM) -> Result<Seq<ErrM>, Seq<char>> {
    match inv.rank {
        Rank::War => war_check(f, inv),
        Rank::Skirmish => skirmish_check(f, inv),
        _ => middle_check(f, inv),
    }
}

/// The check of a folder: its inventory must be readable; its sub-folders are
/// checked first, then the rules of its rank.
pub open spec fn folder_check(f: FolderM) -> Result<Seq<ErrM>, Seq<char>>
    decreases f,
{
    match inventory_of(f) {
        LoadedM::Found(inv) => chain(folders_check(f.subdirs), rank_check(f, inv)),
        LoadedM::Failed(e) => Ok(seq![whole(f.path, e)]),
        LoadedM::Aborted(m) => Err(m),
    }
}

pub open spec fn folders_check(s: Seq<FolderM>) -> Result<Seq<ErrM>, Seq<char>>
    decreases s,
{
    if s.len() == 0 {
        Ok(Seq::empty())
    } else {
        chain(folders_check(s.drop_last()), folder_check(s.last()))
    }
}


// ── Folder checks, executable ────────────────────────────────────────────────

/// Appends the errors of a finished check, or hands back where it stopped.
fn add_check(errors: &mut Vec<ValidationError>, r: Result<Vec<ValidationError>, String>) -> (stop: Option<String>)
    ensures
        match check_m(r) {
            Ok(x) => stop is None && errs_m(final(errors)@) == errs_m(old(errors)@) + x,
            Err(m) => stop matches Some(t) && t@ == m,
        },
{
    match r {
        Ok(v) => {
            extend_errs(errors, v);
            None
        },
        Err(m) => Some(m),
    }
}

pub proof fn lemma_children_rank_stop(s: Seq<FolderM>, k: int, expected: Rank)
    requires
        0 <= k <= s.len(),
        children_rank_check(s.take(k), expected) is Err,
    ensures
        children_rank_check(s, expected) == children_rank_check(s.take(k), expected),
    decreases s.len(),
{
    if k < s.len() {
        assert(s.drop_last().take(k) =~= s.take(k));
        lemma_children_rank_stop(s.drop_last(), k, expected);
    } else {
        assert(s.take(k) =~= s);
    }
}

pub proof fn lemma_sources_stop(s: Seq<BuTextM>, k: int, rank: Rank, callable: Seq<Seq<char>>)
    requires
        0 <= k <= s.len(),
        sources_check(s.take(k), rank, callable) is Err,
    ensures
        sources_check(s, rank, callable) == sources_check(s.take(k), rank, callable),
    decreases s.len(),
{
    if k < s.len() {
        assert(s.drop_last().take(k) =~= s.take(k));
        lemma_sources_stop(s.drop_last(), k, rank, callable);
    } else {
        assert(s.take(k) =~= s);
    }
}

pub proof fn lemma_folders_stop(s: Seq<FolderM>, k: int)
    requires
        0 <= k <= s.len(),
        folders_check(s.take(k)) is Err,
    ensures
        folders_check(s) == folders_check(s.take(k)),
    decreases s.len(),
{
    if k < s.len() {
        assert(s.drop_last().take(k) =~= s.take(k));
        lemma_folders_stop(s.drop_last(), k);
    } else {
        assert(s.take(k) =~= s);
    }
}

pub proof fn lemma_callable_stop(s: Seq<FolderM>, k: int)
    requires
        0 <= k <= s.len(),
        folders_callable(s.take(k)) is Err,
    ensures
        folders_callable(s) == folders_callable(s.take(k)),
    decreases s.len(),
{
    if k < s.len() {
        assert(s.drop_last().take(k) =~= s.take(k));
        lemma_callable_stop(s.drop_last(), k);
    } else {
        assert(s.take(k) =~= s);
    }
}

/// The rank a folder's inventory declares: `Ok(None)` when the inventory is
/// missing or unreadable, `Err` when reading it stops the run.
pub fn read_folder_rank(dir: &Folder) -> (r: Result<Option<Rank>, String>)
    requires
        texts_fit(butexts_m(dir.files@)),
    ensures
        match inventory_of(folder_m(*dir)) {
            LoadedM::Found(inv) => r == Ok::<Option<Rank>, String>(Some(inv.rank)),
            LoadedM::Failed(_) => r == Ok::<Option<Rank>, String>(None),
            LoadedM::Aborted(m) => r matches Err(t) && t@ == m,
        },
{
    match read_inventory(dir) {
        Loaded::Found(inv) => Ok(Some(inv.rank)),
        Loaded::Failed(_) => Ok(None),
        Loaded::Aborted(m) => Err(m),
    }
}

/// Checks that a sub-folder declares the rank `expected`.
fn validate_child_rank(subdir: &Folder, expected: &Rank) -> (r: Result<Vec<ValidationError>, String>)
    requires
        texts_fit(butexts_m(subdir.files@)),
    ensures
        check_m(r) == child_rank_check(folder_m(*subdir), *expected),
{
    let mut errors: Vec<ValidationError> = Vec::new();
    match read_folder_rank(subdir) {
        Ok(Some(actual)) => {
            if actual != *expected {
                let mut m = owned("Found unexpected '");
                m.append(actual.name());
                m.append("' in inventory. Consider replacing it with '");
                m.append(expected.name());
                m.append("'.");
                errors.push(ferr(subdir.path.as_str(), m));
            }
        },
        Ok(None) => {
            let mut m = owned("Sub-folder '");
            m.append(subdir.name.as_str());
            m.append("' is missing inventory.bu (expected a ");
            m.append(expected.name());
            m.append(" folder).");
            errors.push(ferr(subdir.path.as_str(), m));
        },
        Err(m) => {
            return Err(m);
        },
    }
    assert(errs_m(errors@) =~= match child_rank_check(folder_m(*subdir), *expected) {
        Ok(x) => x,
        Err(_) => Seq::empty(),
    });
    Ok(errors)
}

/// Checks the rank of every sub-folder.
fn validate_children_rank(subdirs: &Vec<Folder>, expected: &Rank) -> (r: Result<Vec<ValidationError>, String>)
    requires
        trees_fit(folders_m(subdirs@)),
    ensures
        check_m(r) == children_rank_check(folders_m(subdirs@), *expected),
{
    let ghost s = folders_m(subdirs@);
    proof {
        lemma_folders_m(subdirs@);
        lemma_trees_fit(s);
    }
    let mut errors: Vec<ValidationError> = Vec::new();
    assert(s.take(0) =~= Seq::<FolderM>::empty());
    assert(errs_m(errors@) =~= Seq::<ErrM>::empty());
    let mut i: usize = 0;
    while i < subdirs.len()
        invariant
            i <= subdirs.len(),
            s == folders_m(subdirs@),
            s.len() == subdirs.len(),
            forall|j: int| 0 <= j < s.len() ==> #[trigger] s[j] == folder_m(subdirs@[j]),
            forall|j: int| 0 <= j < s.len() ==> tree_fits(#[trigger] s[j]),
            children_rank_check(s.take(i as int), *expected) == Ok::<Seq<ErrM>, Seq<char>>(errs_m(errors@)),
        decreases subdirs.len() - i,
    {
        assert(s.take(i + 1).drop_last() =~= s.take(i as int));
        assert(s.take(i + 1).last() == s[i as int]);
        assert(tree_fits(s[i as int]));
        let ghost c = child_rank_check(s[i as int], *expected);
        match add_check(&mut errors, validate_child_rank(&subdirs[i], expected)) {
            Some(m) => {
                proof { lemma_children_rank_stop(s, i + 1, *expected); }
                return Err(m);
            },
            None => {},
        }
        i = i + 1;
    }
    assert(s.take(subdirs.len() as int) =~= s);
    Ok(errors)
}

/// Appends every function that an inventory lists.
fn push_listed(names: &mut Vec<String>, inv: &InventoryFile)
    ensures
        strs_m(final(names)@) == strs_m(old(names)@) + listed_fns(inventory_m(*inv).entries),
{
    let ghost start = strs_m(names@);
    let ghost es = inventory_m(*inv).entries;
    let mut i: usize = 0;
    assert(es.take(0) =~= Seq::<EntryM>::empty());
    assert(strs_m(names@) =~= start + listed_fns(es.take(0)));
    while i < inv.entries.len()
        invariant
            i <= inv.entries.len(),
            es == inventory_m(*inv).entries,
            es.len() == inv.entries.len(),
            strs_m(names@) == start + listed_fns(es.take(i as int)),
        decreases inv.entries.len() - i,
    {
        assert(es.take(i + 1).drop_last() =~= es.take(i as int));
        assert(es.take(i + 1).last() == crate::model::entry_m(inv.entries@[i as int]));
        let fns = copy_strs(&inv.entries[i].functions);
        let ghost before = strs_m(names@);
        let mut fns = fns;
        names.append(&mut fns);
        assert(strs_m(names@) =~= before + strs_m(inv.entries@[i as int].functions@));
        assert(strs_m(names@) =~= start + listed_fns(es.take(i + 1)));
        i = i + 1;
    }
    assert(es.take(inv.entries.len() as int) =~= es);
}

pub open spec fn names_m(r: Result<Vec<String>, String>) -> Result<Seq<Seq<char>>, Seq<char>> {
    match r {
        Ok(v) => Ok(strs_m(v@)),
        Err(m) => Err(m@),
    }
}

/// The functions the sub-folders offer to the folder above them: what their
/// inventories list, all the way down.
#[verifier::loop_isolation(false)]
pub fn collect_child_callable(subdirs: &Vec<Folder>) -> (r: Result<Vec<String>, String>)
    requires
        trees_fit(folders_m(subdirs@)),
    ensures
        names_m(r) == folders_callable(folders_m(subdirs@)),
    decreases subdirs,
{
    let ghost s = folders_m(subdirs@);
    proof {
        lemma_folders_m(subdirs@);
        lemma_trees_fit(s);
    }
    let mut names: Vec<String> = Vec::new();
    assert(s.take(0) =~= Seq::<FolderM>::empty());
    assert(strs_m(names@) =~= Seq::<Seq<char>>::empty());
    let mut i: usize = 0;
    while i < subdirs.len()
        invariant
            i <= subdirs.len(),
            folders_callable(s.take(i as int)) == Ok::<Seq<Seq<char>>, Seq<char>>(strs_m(names@)),
        decreases subdirs.len() - i,
    {
        assert(s.take(i + 1).drop_last() =~= s.take(i as int));
        assert(s.take(i + 1).last() == s[i as int]);
        let sub = &subdirs[i];
        assert(s[i as int] == folder_m(*sub));
        assert(tree_fits(folder_m(*sub)));
        let ghost before = strs_m(names@);
        match read_inventory(sub) {
            Loaded::Found(inv) => {
                push_listed(&mut names, &inv);
                assert(folder_m(*sub).subdirs == folders_m(sub.subdirs@));
                match collect_child_callable(&sub.subdirs) {
                    Ok(more) => {
                        let mut more = more;
                        let ghost m = strs_m(more@);
                        let ghost mid = strs_m(names@);
                        names.append(&mut more);
                        assert(strs_m(names@) =~= mid + m);
                        assert(folder_callable(s[i as int]) == Ok::<Seq<Seq<char>>, Seq<char>>(listed_fns(inventory_m(inv).entries) + m));
                        assert(strs_m(names@) =~= before + (listed_fns(inventory_m(inv).entries) + m));
                    },
                    Err(m) => {
                        proof { lemma_callable_stop(s, i + 1); }
                        return Err(m);
                    },
                }
            },
            Loaded::Failed(_) => {
                assert(strs_m(names@) =~= before + Seq::<Seq<char>>::empty());
            },
            Loaded::Aborted(m) => {
                proof { lemma_callable_stop(s, i + 1); }
                return Err(m);
            },
        }
        i = i + 1;
    }
    assert(s.take(subdirs.len() as int) =~= s);
    Ok(names)
}

/// Checks a folder's `main.bu`.
fn validate_main_file(mf: &BuText, callable: &Vec<String>) -> (r: Result<Vec<ValidationError>, String>)
    requires
        text_fits(butext_m(*mf).text),
    ensures
        check_m(r) == main_check(butext_m(*mf), strs_m(callable@)),
{
    match load_source(mf, "Could not read main.bu: ", "Parse error in main.bu: ") {
        Loaded::Found(sf) => {
            let mut errors: Vec<ValidationError> = Vec::new();
            if sf.bullets.len() > 5 {
                push_err(&mut errors, ferr(mf.path.as_str(), msg2("main.bu cannot contain more than 5 functions (found ",
                    usize_to_string(sf.bullets.len()).as_str(), ").")));
            }
            assert(errs_m(errors@) =~= one(sf.bullets.len() > 5, whole(mf.path@, m_main_too_many(sf.bullets.len() as nat))));
            validate_functions(&sf, mf.path.as_str(), callable, false, &mut errors);
            Ok(errors)
        },
        Loaded::Failed(e) => {
            let mut errors: Vec<ValidationError> = Vec::new();
            push_err(&mut errors, ferr(mf.path.as_str(), e));
            assert(errs_m(errors@) =~= seq![whole(mf.path@, e@)]);
            Ok(errors)
        },
        Loaded::Aborted(m) => Err(m),
    }
}

/// Checks one source file of a folder of rank `rank`.
fn validate_source_file(bu: &BuText, rank: &Rank, callable: &Vec<String>) -> (r: Result<Vec<ValidationError>, String>)
    requires
        text_fits(butext_m(*bu).text),
    ensures
        check_m(r) == source_check(butext_m(*bu), *rank, strs_m(callable@)),
{
    match load_source(bu, "Could not read file: ", "Parse error: ") {
        Loaded::Found(sf) => Ok(validate_source_direct(&sf, bu.path.as_str(), callable, rank)),
        Loaded::Failed(e) => {
            let mut errors: Vec<ValidationError> = Vec::new();
            push_err(&mut errors, ferr(bu.path.as_str(), e));
            assert(errs_m(errors@) =~= seq![whole(bu.path@, e@)]);
            Ok(errors)
        },
        Loaded::Aborted(m) => Err(m),
    }
}

/// Checks every source file of a folder.
fn validate_sources(srcs: &Vec<&BuText>, rank: &Rank, callable: &Vec<String>) -> (r: Result<Vec<ValidationError>, String>)
    requires
        forall|j: int| 0 <= j < srcs.len() ==> text_fits(#[trigger] refs_m(srcs@)[j].text),
    ensures
        check_m(r) == sources_check(refs_m(srcs@), *rank, strs_m(callable@)),
{
    let ghost s = refs_m(srcs@);
    let mut errors: Vec<ValidationError> = Vec::new();
    assert(s.take(0) =~= Seq::<BuTextM>::empty());
    assert(errs_m(errors@) =~= Seq::<ErrM>::empty());
    let mut i: usize = 0;
    while i < srcs.len()
        invariant
            i <= srcs.len(),
            s == refs_m(srcs@),
            forall|j: int| 0 <= j < srcs.len() ==> text_fits(#[trigger] refs_m(srcs@)[j].text),
            sources_check(s.take(i as int), *rank, strs_m(callable@)) == Ok::<Seq<ErrM>, Seq<char>>(errs_m(errors@)),
        decreases srcs.len() - i,
    {
        assert(s.take(i + 1).drop_last() =~= s.take(i as int));
        assert(s.take(i + 1).last() == butext_m(*srcs@[i as int]));
        assert(text_fits(s[i as int].text));
        match add_check(&mut errors, validate_source_file(srcs[i], rank, callable)) {
            Some(m) => {
                proof { lemma_sources_stop(s, i + 1, *rank, strs_m(callable@)); }
                return Err(m);
            },
            None => {},
        }
        i = i + 1;
    }
    assert(s.take(srcs.len() as int) =~= s);
    Ok(errors)
}


pub open spec fn ok_part(c: Result<Seq<ErrM>, Seq<char>>) -> Seq<ErrM> {
    match c {
        Ok(x) => x,
        Err(_) => Seq::empty(),
    }
}

/// The rules of a war folder.
fn check_war(dir: &Folder, inv: &InventoryFile) -> (r: Result<Vec<ValidationError>, String>)
    requires
        tree_fits(folder_m(*dir)),
    ensures
        check_m(r) == war_check(folder_m(*dir), inventory_m(*inv)),
{
    let ghost f = folder_m(*dir);
    let srcs = collect_bu_files(dir);
    let mut errors: Vec<ValidationError> = Vec::new();
    if srcs.len() > 0 {
        push_err(&mut errors, ferr(dir.path.as_str(), msg2("War folder cannot contain source files (found ",
            usize_to_string(srcs.len()).as_str(), "). Consider using a theater rank instead.")));
    }
    if dir.subdirs.len() > 5 {
        push_err(&mut errors, ferr(dir.path.as_str(), msg2("War folder cannot exceed 5 theaters (found ",
            usize_to_string(dir.subdirs.len()).as_str(), ").")));
    }
    if inv.entries.len() > 0 {
        let at = join(dir.path.as_str(), "inventory.bu");
        push_err(&mut errors, ferr(at.as_str(), owned("War inventory cannot list any files.")));
    }
    proof { lemma_folders_m(dir.subdirs@); }
    let ghost lim = one(sources(f.files).len() > 0, whole(f.path, m_war_sources(sources(f.files).len())))
        + one(f.subdirs.len() > 5, whole(f.path, m_war_theaters(f.subdirs.len())))
        + one(inventory_m(*inv).entries.len() > 0, whole(join_path(f.path, "inventory.bu"@), "War inventory cannot list any files."@));
    assert(errs_m(errors@) =~= lim);
    let ghost c1 = children_rank_check(f.subdirs, Rank::Theater);
    match add_check(&mut errors, validate_children_rank(&dir.subdirs, &Rank::Theater)) {
        Some(m) => return Err(m),
        None => {},
    }
    let ghost mid = errs_m(errors@);
    match main_bu_path(dir) {
        Some(mf) => {
            proof { crate::project::lemma_find_index(f.files, "main.bu"@); }
            let callable = match collect_child_callable(&dir.subdirs) {
                Ok(c) => c,
                Err(m) => return Err(m),
            };
            match add_check(&mut errors, validate_main_file(mf, &callable)) {
                Some(m) => return Err(m),
                None => {},
            }
            let ghost c2 = main_check(butext_m(*mf), strs_m(callable@));
            assert(errs_m(errors@) =~= lim + (ok_part(c1) + ok_part(c2)));
        },
        None => {
            assert(errs_m(errors@) =~= lim + (ok_part(c1) + Seq::<ErrM>::empty()));
        },
    }
    Ok(errors)
}

/// The rules of a skirmish folder.
fn check_skirmish(dir: &Folder, inv: &InventoryFile) -> (r: Result<Vec<ValidationError>, String>)
    requires
        tree_fits(folder_m(*dir)),
    ensures
        check_m(r) == skirmish_check(folder_m(*dir), inventory_m(*inv)),
{
    let ghost f = folder_m(*dir);
    let srcs = collect_bu_files(dir);
    let main = main_bu_path(dir);
    let mut errors: Vec<ValidationError> = Vec::new();
    if dir.subdirs.len() > 0 {
        push_err(&mut errors, ferr(dir.path.as_str(), msg2("Skirmish folder cannot contain sub-folders (found ",
            usize_to_string(dir.subdirs.len()).as_str(), ").")));
    }
    if srcs.len() > 5 {
        push_err(&mut errors, ferr(dir.path.as_str(), msg2("Skirmish folder cannot contain more than 5 source files (found ",
            usize_to_string(srcs.len()).as_str(), ").")));
    }
    if main.is_some() {
        let at = join(dir.path.as_str(), "main.bu");
        push_err(&mut errors, ferr(at.as_str(),
            owned("Skirmish folders cannot contain main.bu. Move your entry point to a tactic or higher rank folder.")));
    }
    proof { lemma_folders_m(dir.subdirs@); }
    let ghost lim = one(f.subdirs.len() > 0, whole(f.path, m_skirmish_subdirs(f.subdirs.len())))
        + one(sources(f.files).len() > 5, whole(f.path, m_skirmish_sources(sources(f.files).len())))
        + one(find_file(f.files, "main.bu"@) is Some, whole(join_path(f.path, "main.bu"@),
            "Skirmish folders cannot contain main.bu. Move your entry point to a tactic or higher rank folder."@));
    assert(errs_m(errors@) =~= lim);
    let ghost c1 = completeness(f.path, f.files, inventory_m(*inv), sources(f.files));
    match add_check(&mut errors, validate_inventory_completeness(dir, inv, &srcs)) {
        Some(m) => return Err(m),
        None => {},
    }
    proof { srcs_fit(dir, &srcs); }
    let no_calls: Vec<String> = Vec::new();
    assert(strs_m(no_calls@) =~= Seq::<Seq<char>>::empty());
    let ghost c2 = sources_check(sources(f.files), Rank::Skirmish, Seq::empty());
    match add_check(&mut errors, validate_sources(&srcs, &Rank::Skirmish, &no_calls)) {
        Some(m) => return Err(m),
        None => {},
    }
    assert(errs_m(errors@) =~= lim + (ok_part(c1) + ok_part(c2)));
    Ok(errors)
}

/// The source files of a folder whose texts fit have texts that fit.
proof fn srcs_fit(dir: &Folder, srcs: &Vec<&BuText>)
    requires
        texts_fit(butexts_m(dir.files@)),
        refs_m(srcs@) == sources(butexts_m(dir.files@)),
    ensures
        forall|j: int| 0 <= j < srcs.len() ==> text_fits(#[trigger] refs_m(srcs@)[j].text),
{
    lemma_sources_fit(butexts_m(dir.files@));
}

pub proof fn lemma_sources_fit(files: Seq<BuTextM>)
    requires
        texts_fit(files),
    ensures
        texts_fit(sources(files)),
    decreases files.len(),
{
    if files.len() > 0 {
        assert(texts_fit(files.drop_last())) by {
            assert forall|i: int| 0 <= i < files.drop_last().len() implies text_fits(#[trigger] files.drop_last()[i].text) by {
                assert(files.drop_last()[i] == files[i]);
            }
        }
        lemma_sources_fit(files.drop_last());
        assert(text_fits(files[files.len() - 1].text));
    }
}


fn rank_subdirs_msg(rank: &Rank, child: &Rank, n: usize) -> (m: String)
    ensures
        m@ == m_rank_subdirs(*rank, *child, n as nat),
{
    proof { crate::ast::lemma_rank_name_ascii(*rank); }
    let mut m = capitalize(rank.name());
    m.append(" folder cannot contain more than 5 ");
    m.append(child.name());
    m.append(" sub-folders (found ");
    m.append(usize_to_string(n).as_str());
    m.append(").");
    m
}

fn rank_sources_msg(rank: &Rank, n: usize) -> (m: String)
    ensures
        m@ == m_rank_sources(*rank, n as nat),
{
    proof { crate::ast::lemma_rank_name_ascii(*rank); }
    let mut m = capitalize(rank.name());
    m.append(" folder cannot contain source files (found ");
    m.append(usize_to_string(n).as_str());
    m.append("). Source files belong in skirmish folders.");
    m
}

/// The rules of a folder between war and skirmish.
#[verifier::spinoff_prover]
#[verifier::rlimit(30)]
fn check_middle(dir: &Folder, inv: &InventoryFile) -> (r: Result<Vec<ValidationError>, String>)
    requires
        tree_fits(folder_m(*dir)),
        inv.rank != Rank::War,
        inv.rank != Rank::Skirmish,
    ensures
        check_m(r) == middle_check(folder_m(*dir), inventory_m(*inv)),
{
    let ghost f = folder_m(*dir);
    let rank = inv.rank;
    let child = match rank.child_rank() {
        Some(c) => c,
        None => Rank::Skirmish,
    };
    let srcs = collect_bu_files(dir);
    let mut errors: Vec<ValidationError> = Vec::new();
    if dir.subdirs.len() > 5 {
        push_err(&mut errors, ferr(dir.path.as_str(), rank_subdirs_msg(&rank, &child, dir.subdirs.len())));
    }
    if srcs.len() > 0 {
        push_err(&mut errors, ferr(dir.path.as_str(), rank_sources_msg(&rank, srcs.len())));
    }
    proof { lemma_folders_m(dir.subdirs@); }
    let ghost lim = one(f.subdirs.len() > 5, whole(f.path, m_rank_subdirs(rank, child, f.subdirs.len())))
        + one(sources(f.files).len() > 0, whole(f.path, m_rank_sources(rank, sources(f.files).len())));
    assert(errs_m(errors@) =~= lim);
    let ghost c1 = children_rank_check(f.subdirs, child);
    match add_check(&mut errors, validate_children_rank(&dir.subdirs, &child)) {
        Some(m) => return Err(m),
        None => {},
    }
    let ghost c2 = completeness(f.path, f.files, inventory_m(*inv), sources(f.files));
    match add_check(&mut errors, validate_inventory_completeness(dir, inv, &srcs)) {
        Some(m) => return Err(m),
        None => {},
    }
    let ghost c3 = calls_check(f);
    match add_check(&mut errors, check_calls(dir)) {
        Some(m) => return Err(m),
        None => {},
    }
    assert(errs_m(errors@) =~= lim + (ok_part(c1) + (ok_part(c2) + ok_part(c3))));
    Ok(errors)
}

/// The `main.bu` of a folder between war and skirmish.
fn check_calls(dir: &Folder) -> (r: Result<Vec<ValidationError>, String>)
    requires
        tree_fits(folder_m(*dir)),
    ensures
        check_m(r) == calls_check(folder_m(*dir)),
{
    let ghost f = folder_m(*dir);
    proof { lemma_folders_m(dir.subdirs@); }
    let callable = match collect_child_callable(&dir.subdirs) {
        Ok(c) => c,
        Err(m) => return Err(m),
    };
    let mut errors: Vec<ValidationError> = Vec::new();
    assert(errs_m(errors@) =~= Seq::<ErrM>::empty());
    match main_bu_path(dir) {
        Some(mf) => {
            proof { crate::project::lemma_find_index(f.files, "main.bu"@); }
            match add_check(&mut errors, validate_main_file(mf, &callable)) {
                Some(m) => return Err(m),
                None => {},
            }
        },
        None => {},
    }
    Ok(errors)
}

/// Checks a folder and everything below it: its inventory must be readable,
/// its sub-folders are checked first (bottom-up), then the rules of its rank.
#[verifier::loop_isolation(false)]
fn validate_folder(dir: &Folder) -> (r: Result<Vec<ValidationError>, String>)
    requires
        tree_fits(folder_m(*dir)),
    ensures
        check_m(r) == folder_check(folder_m(*dir)),
    decreases dir,
{
    let ghost f = folder_m(*dir);
    let inv = match read_inventory(dir) {
        Loaded::Found(i) => i,
        Loaded::Failed(e) => {
            let mut errors: Vec<ValidationError> = Vec::new();
            push_err(&mut errors, ferr(dir.path.as_str(), e));
            assert(errs_m(errors@) =~= seq![whole(dir.path@, e@)]);
            return Ok(errors);
        },
        Loaded::Aborted(m) => return Err(m),
    };
    let ghost s = f.subdirs;
    proof {
        lemma_folders_m(dir.subdirs@);
        lemma_trees_fit(s);
    }
    let mut errors: Vec<ValidationError> = Vec::new();
    assert(s.take(0) =~= Seq::<FolderM>::empty());
    assert(errs_m(errors@) =~= Seq::<ErrM>::empty());
    let mut i: usize = 0;
    while i < dir.subdirs.len()
        invariant
            i <= dir.subdirs.len(),
            folders_check(s.take(i as int)) == Ok::<Seq<ErrM>, Seq<char>>(errs_m(errors@)),
        decreases dir.subdirs.len() - i,
    {
        assert(s.take(i + 1).drop_last() =~= s.take(i as int));
        assert(s.take(i + 1).last() == s[i as int]);
        assert(tree_fits(s[i as int]));
        match add_check(&mut errors, validate_folder(&dir.subdirs[i])) {
            Some(m) => {
                proof { lemma_folders_stop(s, i + 1); }
                return Err(m);
            },
            None => {},
        }
        i = i + 1;
    }
    assert(s.take(dir.subdirs.len() as int) =~= s);
    let ghost below = errs_m(errors@);
    let own = match inv.rank {
        Rank::War => check_war(dir, &inv),
        Rank::Skirmish => check_skirmish(dir, &inv),
        _ => check_middle(dir, &inv),
    };
    let ghost c = rank_check(f, inventory_m(inv));
    match add_check(&mut errors, own) {
        Some(m) => return Err(m),
        None => {},
    }
    Ok(errors)
}

/// Checks a whole project tree. The result is every structural error found,
/// or the message the tool stops with when a file lies outside the language.
pub fn validate_tree(root: &Folder) -> (r: Result<Vec<ValidationError>, String>)
    requires
        tree_fits(folder_m(*root)),
    ensures
        check_m(r) == folder_check(folder_m(*root)),
{
    validate_folder(root)
}


proof fn lemma_chain_ok(a: Result<Seq<ErrM>, Seq<char>>, b: Result<Seq<ErrM>, Seq<char>>)
    requires
        chain(a, b) is Ok,
    ensures
        a is Ok,
        b is Ok,
        chain(a, b)->Ok_0 == a->Ok_0 + b->Ok_0,
{
}

proof fn lemma_rank_limits(f: FolderM, inv: InventoryM)
    requires
        f.subdirs.len() > 5 || sources(f.files).len() > 5,
        rank_check(f, inv) is Ok,
    ensures
        rank_check(f, inv)->Ok_0.len() > 0,
{
    let nf = sources(f.files).len();
    let ns = f.subdirs.len();
    match inv.rank {
        Rank::War => {
            let head = one(nf > 0, whole(f.path, m_war_sources(nf))) + one(ns > 5, whole(f.path, m_war_theaters(ns)))
                + one(inv.entries.len() > 0, whole(join_path(f.path, "inventory.bu"@), "War inventory cannot list any files."@));
            let rest = chain(
                children_rank_check(f.subdirs, Rank::Theater),
                match find_file(f.files, "main.bu"@) {
                    Some(mf) => match folders_callable(f.subdirs) {
                        Ok(c) => main_check(mf, c),
                        Err(m) => Err(m),
                    },
                    None => Ok(Seq::empty()),
                },
            );
            assert(war_check(f, inv) == chain(Ok(head), rest));
            lemma_chain_ok(Ok(head), rest);
            assert(head.len() > 0);
        },
        Rank::Skirmish => {
            let head = one(ns > 0, whole(f.path, m_skirmish_subdirs(ns))) + one(nf > 5, whole(f.path, m_skirmish_sources(nf)))
                + one(find_file(f.files, "main.bu"@) is Some, whole(join_path(f.path, "main.bu"@),
                    "Skirmish folders cannot contain main.bu. Move your entry point to a tactic or higher rank folder."@));
            let rest = chain(completeness(f.path, f.files, inv, sources(f.files)), sources_check(sources(f.files), Rank::Skirmish, Seq::empty()));
            assert(skirmish_check(f, inv) == chain(Ok(head), rest));
            lemma_chain_ok(Ok(head), rest);
            assert(head.len() > 0);
        },
        _ => {
            let r = inv.rank;
            let c = rank_child(r).unwrap();
            let head = one(ns > 5, whole(f.path, m_rank_subdirs(r, c, ns))) + one(nf > 0, whole(f.path, m_rank_sources(r, nf)));
            let rest = chain(
                children_rank_check(f.subdirs, c),
                chain(completeness(f.path, f.files, inv, sources(f.files)), calls_check(f)),
            );
            assert(middle_check(f, inv) == chain(Ok(head), rest));
            lemma_chain_ok(Ok(head), rest);
            assert(head.len() > 0);
        },
    }
}

/// A folder that holds more than five sub-folders or more than five source
/// files never passes: its check, when it finishes, reports at least one error.
pub proof fn law_folder_limits_reported(f: FolderM)
    requires
        f.subdirs.len() > 5 || sources(f.files).len() > 5,
        folder_check(f) is Ok,
    ensures
        folder_check(f)->Ok_0.len() > 0,
{
    match inventory_of(f) {
        LoadedM::Found(inv) => {
            lemma_chain_ok(folders_check(f.subdirs), rank_check(f, inv));
            lemma_rank_limits(f, inv);
        },
        _ => {},
    }
}


spec fn is_prefix(a: Seq<ErrM>, b: Seq<ErrM>) -> bool {
    a.len() <= b.len() && b.subrange(0, a.len() as int) == a
}

proof fn lemma_inputs_grow(
    st: PipeScan,
    xs: Seq<Seq<char>>,
    params: Seq<Seq<char>>,
    func: Seq<char>,
    file: Seq<char>,
    line: nat,
    col: nat,
    n: nat,
)
    ensures
        is_prefix(st.errs, inputs_step(st, xs, params, func, file, line, col, n).errs),
        inputs_step(st, xs, params, func, file, line, col, n).bound == st.bound,
    decreases xs.len(),
{
    if xs.len() > 0 {
        lemma_inputs_grow(st, xs.drop_last(), params, func, file, line, col, n);
        let mid = inputs_step(st, xs.drop_last(), params, func, file, line, col, n);
        let fin = inputs_step(st, xs, params, func, file, line, col, n);
        assert(fin == input_step(mid, xs.last(), params, func, file, line, col, n));
        assert(fin.errs.subrange(0, st.errs.len() as int) =~= st.errs) by {
            assert(mid.errs.subrange(0, st.errs.len() as int) == st.errs);
        }
    } else {
        assert(st.errs.subrange(0, st.errs.len() as int) =~= st.errs);
    }
}

proof fn lemma_step_grows(
    st: PipeScan,
    p: PipeM,
    i: nat,
    last: nat,
    params: Seq<Seq<char>>,
    func: Seq<char>,
    out_name: Seq<char>,
    file: Seq<char>,
    callable: Seq<Seq<char>>,
    is_skirmish: bool,
)
    ensures
        is_prefix(st.errs, pipe_step(st, p, i, last, params, func, out_name, file, callable, is_skirmish).errs),
        i == last && p.binding != out_name ==> pipe_step(st, p, i, last, params, func, out_name, file, callable, is_skirmish).errs.last()
            == at_span(file, p.line, p.col, m_last_mismatch(func, p.binding, out_name)),
{
    lemma_inputs_grow(st, p.inputs, params, func, file, p.line, p.col, i + 1);
    let st1 = inputs_step(st, p.inputs, params, func, file, p.line, p.col, i + 1);
    let fin = pipe_step(st, p, i, last, params, func, out_name, file, callable, is_skirmish);
    let e2 = st1.errs + expr_errs(p.expr, func, file, p.line, p.col, callable, is_skirmish);
    assert(e2.subrange(0, st.errs.len() as int) =~= st.errs) by {
        assert(st1.errs.subrange(0, st.errs.len() as int) == st.errs);
    }
    assert(fin.errs.subrange(0, st.errs.len() as int) =~= st.errs) by {
        assert(fin.errs.subrange(0, e2.len() as int) =~= e2);
    }
}

proof fn lemma_scan_grows(
    init: PipeScan,
    ps: Seq<PipeM>,
    k: nat,
    params: Seq<Seq<char>>,
    func: Seq<char>,
    out_name: Seq<char>,
    file: Seq<char>,
    callable: Seq<Seq<char>>,
    is_skirmish: bool,
)
    ensures
        is_prefix(init.errs, pipes_scan(init, ps, k, params, func, out_name, file, callable, is_skirmish).errs),
    decreases k,
{
    if k > 0 {
        lemma_scan_grows(init, ps, (k - 1) as nat, params, func, out_name, file, callable, is_skirmish);
        let last: nat = if ps.len() == 0 { 0 } else { (ps.len() - 1) as nat };
        let mid = pipes_scan(init, ps, (k - 1) as nat, params, func, out_name, file, callable, is_skirmish);
        lemma_step_grows(mid, ps[k - 1], (k - 1) as nat, last, params, func, out_name, file, callable, is_skirmish);
        let fin = pipes_scan(init, ps, k, params, func, out_name, file, callable, is_skirmish);
        assert(fin.errs.subrange(0, init.errs.len() as int) =~= init.errs) by {
            assert(fin.errs.subrange(0, mid.errs.len() as int) == mid.errs);
            assert(mid.errs.subrange(0, init.errs.len() as int) == init.errs);
        }
    } else {
        assert(init.errs.subrange(0, init.errs.len() as int) =~= init.errs);
    }
}

/// A function with more than five pipes is refused, and that is the first
/// error reported for it.
pub proof fn law_bullet_limit_reported(
    ps: Seq<PipeM>,
    func: Seq<char>,
    out_name: Seq<char>,
    params: Seq<ParamM>,
    file: Seq<char>,
    callable: Seq<Seq<char>>,
    is_skirmish: bool,
)
    requires
        ps.len() > 5,
    ensures
        bullets_errs(ps, func, out_name, params, file, callable, is_skirmish).len() > 0,
        bullets_errs(ps, func, out_name, params, file, callable, is_skirmish)[0] == whole(file, m_too_many_bullets(func, ps.len())),
{
    let init = PipeScan {
        errs: seq![whole(file, m_too_many_bullets(func, ps.len()))],
        bound: Seq::empty(),
        consumed: Seq::empty(),
    };
    lemma_scan_grows(init, ps, ps.len(), param_names(params), func, out_name, file, callable, is_skirmish);
    let st = pipes_scan(init, ps, ps.len(), param_names(params), func, out_name, file, callable, is_skirmish);
    assert(st.errs.subrange(0, 1) == init.errs);
    assert(st.errs[0] == init.errs[0]);
}

/// The last pipe names the result: when its binding is not the declared
/// output, the function is reported for it, at that pipe.
pub proof fn law_last_binding_checked(
    ps: Seq<PipeM>,
    func: Seq<char>,
    out_name: Seq<char>,
    params: Seq<ParamM>,
    file: Seq<char>,
    callable: Seq<Seq<char>>,
    is_skirmish: bool,
)
    requires
        ps.len() > 0,
        ps.last().binding != out_name,
    ensures
        bullets_errs(ps, func, out_name, params, file, callable, is_skirmish).contains(
            at_span(file, ps.last().line, ps.last().col, m_last_mismatch(func, ps.last().binding, out_name)),
        ),
{
    let init = PipeScan {
        errs: if ps.len() > 5 { seq![whole(file, m_too_many_bullets(func, ps.len()))] } else { Seq::empty() },
        bound: Seq::empty(),
        consumed: Seq::empty(),
    };
    let k = (ps.len() - 1) as nat;
    let mid = pipes_scan(init, ps, k, param_names(params), func, out_name, file, callable, is_skirmish);
    lemma_step_grows(mid, ps[k as int], k, k, param_names(params), func, out_name, file, callable, is_skirmish);
    let st = pipes_scan(init, ps, ps.len(), param_names(params), func, out_name, file, callable, is_skirmish);
    let e = at_span(file, ps.last().line, ps.last().col, m_last_mismatch(func, ps.last().binding, out_name));
    assert(st.errs.last() == e);
    let all = bullets_errs(ps, func, out_name, params, file, callable, is_skirmish);
    assert(all[st.errs.len() - 1] == e);
}

/// A source file with more than five functions is refused, and that is the
/// first error reported for it.
pub proof fn law_function_limit_reported(bs: Seq<BulletM>, file: Seq<char>, callable: Seq<Seq<char>>, is_skirmish: bool)
    requires
        bs.len() > 5,
    ensures
        source_errs(bs, file, callable, is_skirmish).len() > 0,
        source_errs(bs, file, callable, is_skirmish)[0] == whole(file, m_too_many_functions(bs.len())),
{
}


/// Functions are built below to be used above. A skirmish file calls
/// nothing: each call there is reported. Elsewhere a call is accepted when the
/// functions that the children offer include its callee and every function it
/// passes by reference.
pub proof fn law_calls_go_below(
    name: Seq<char>,
    args: Seq<ArgM>,
    func: Seq<char>,
    file: Seq<char>,
    line: nat,
    col: nat,
    callable: Seq<Seq<char>>,
)
    ensures
        atom_errs(AtomM::Call(name, args), func, file, line, col, callable, true)
            == seq![at_span(file, line, col, m_skirmish_call(func, name))],
        callable.contains(name) && (forall|i: int| 0 <= i < args.len() ==> (#[trigger] args[i] matches ArgM::Ref(r) ==> callable.contains(r)))
            ==> atom_errs(AtomM::Call(name, args), func, file, line, col, callable, false).len() == 0,
{
    if callable.contains(name) && (forall|i: int| 0 <= i < args.len() ==> (#[trigger] args[i] matches ArgM::Ref(r) ==> callable.contains(r))) {
        lemma_refs_listed(args, func, file, line, col, callable);
    }
}

proof fn lemma_refs_listed(args: Seq<ArgM>, func: Seq<char>, file: Seq<char>, line: nat, col: nat, callable: Seq<Seq<char>>)
    requires
        forall|i: int| 0 <= i < args.len() ==> (#[trigger] args[i] matches ArgM::Ref(r) ==> callable.contains(r)),
    ensures
        ref_errs(args, func, file, line, col, callable).len() == 0,
    decreases args.len(),
{
    if args.len() > 0 {
        assert(forall|i: int| 0 <= i < args.len() - 1 ==> args.drop_last()[i] == args[i]);
        lemma_refs_listed(args.drop_last(), func, file, line, col, callable);
        assert(args[args.len() - 1] == args.last());
    }
}

/// Every function that a sub-folder's inventory lists is offered to the
/// folder above it.
pub proof fn law_children_offer_listed(subs: Seq<FolderM>, i: int, inv: InventoryM, e: int, k: int)
    requires
        folders_callable(subs) is Ok,
        0 <= i < subs.len(),
        inventory_of(subs[i]) == LoadedM::Found(inv),
        0 <= e < inv.entries.len(),
        0 <= k < inv.entries[e].functions.len(),
    ensures
        folders_callable(subs)->Ok_0.contains(inv.entries[e].functions[k]),
    decreases subs.len(),
{
    let x = inv.entries[e].functions[k];
    lemma_listed_contains(inv.entries, e, k);
    let a = folders_callable(subs.drop_last());
    let b = folder_callable(subs.last());
    if i == subs.len() - 1 {
        let c = folders_callable(subs[i].subdirs)->Ok_0;
        let l = listed_fns(inv.entries);
        let j = choose|j: int| 0 <= j < l.len() && l[j] == x;
        assert((l + c)[j] == x);
        assert(b->Ok_0.contains(x));
        assert((a->Ok_0 + b->Ok_0)[a->Ok_0.len() + j] == x);
    } else {
        assert(subs.drop_last()[i] == subs[i]);
        law_children_offer_listed(subs.drop_last(), i, inv, e, k);
        let j = choose|j: int| 0 <= j < a->Ok_0.len() && a->Ok_0[j] == x;
        assert((a->Ok_0 + b->Ok_0)[j] == x);
    }
}

proof fn lemma_listed_contains(es: Seq<EntryM>, e: int, k: int)
    requires
        0 <= e < es.len(),
        0 <= k < es[e].functions.len(),
    ensures
        listed_fns(es).contains(es[e].functions[k]),
    decreases es.len(),
{
    let x = es[e].functions[k];
    let rest = listed_fns(es.drop_last());
    if e == es.len() - 1 {
        assert((rest + es.last().functions)[rest.len() + k] == x);
    } else {
        assert(es.drop_last()[e] == es[e]);
        lemma_listed_contains(es.drop_last(), e, k);
        let j = choose|j: int| 0 <= j < rest.len() && rest[j] == x;
        assert((rest + es.last().functions)[j] == x);
    }
}


proof fn lemma_inputs_consume(
    st: PipeScan,
    xs: Seq<Seq<char>>,
    params: Seq<Seq<char>>,
    func: Seq<char>,
    file: Seq<char>,
    line: nat,
    col: nat,
    n: nat,
    x: Seq<char>,
)
    requires
        inputs_step(st, xs, params, func, file, line, col, n).consumed.contains(x),
    ensures
        st.consumed.contains(x) || xs.contains(x),
    decreases xs.len(),
{
    if xs.len() > 0 {
        let mid = inputs_step(st, xs.drop_last(), params, func, file, line, col, n);
        if mid.consumed.contains(x) {
            lemma_inputs_consume(st, xs.drop_last(), params, func, file, line, col, n, x);
            if xs.drop_last().contains(x) {
                let k = choose|k: int| 0 <= k < xs.drop_last().len() && xs.drop_last()[k] == x;
                assert(xs[k] == x);
            }
        } else {
            assert(xs[xs.len() - 1] == x);
        }
    }
}

/// What the scan after `k` pipes has bound and consumed: every binding of
/// those pipes is bound, and only their inputs are consumed.
proof fn lemma_scan_names(
    init: PipeScan,
    ps: Seq<PipeM>,
    k: nat,
    params: Seq<Seq<char>>,
    func: Seq<char>,
    out_name: Seq<char>,
    file: Seq<char>,
    callable: Seq<Seq<char>>,
    is_skirmish: bool,
)
    requires
        k <= ps.len(),
    ensures
        forall|m: int| 0 <= m < k ==> pipes_scan(init, ps, k, params, func, out_name, file, callable, is_skirmish).bound.contains(
            #[trigger] ps[m].binding,
        ),
        forall|x: Seq<char>| #[trigger] pipes_scan(init, ps, k, params, func, out_name, file, callable, is_skirmish).consumed.contains(x)
            ==> init.consumed.contains(x) || exists|m: int| 0 <= m < k && (#[trigger] ps[m]).inputs.contains(x),
        forall|x: Seq<char>| #[trigger] pipes_scan(init, ps, k, params, func, out_name, file, callable, is_skirmish).bound.contains(x)
            ==> init.bound.contains(x) || exists|m: int| 0 <= m < k && (#[trigger] ps[m]).binding == x,
    decreases k,
{
    if k > 0 {
        lemma_scan_names(init, ps, (k - 1) as nat, params, func, out_name, file, callable, is_skirmish);
        let last: nat = if ps.len() == 0 { 0 } else { (ps.len() - 1) as nat };
        let mid = pipes_scan(init, ps, (k - 1) as nat, params, func, out_name, file, callable, is_skirmish);
        let p = ps[k - 1];
        lemma_inputs_grow(mid, p.inputs, params, func, file, p.line, p.col, k as nat);
        let st1 = inputs_step(mid, p.inputs, params, func, file, p.line, p.col, k as nat);
        let fin = pipes_scan(init, ps, k, params, func, out_name, file, callable, is_skirmish);
        assert(fin.bound == (if st1.bound.contains(p.binding) { st1.bound } else { st1.bound.push(p.binding) }));
        assert(fin.consumed == st1.consumed);
        assert forall|m: int| 0 <= m < k implies fin.bound.contains(#[trigger] ps[m].binding) by {
            if m < k - 1 {
                let i = choose|i: int| 0 <= i < mid.bound.len() && mid.bound[i] == ps[m].binding;
                if !st1.bound.contains(p.binding) {
                    assert(fin.bound[i] == ps[m].binding);
                }
            } else if !st1.bound.contains(p.binding) {
                assert(fin.bound[st1.bound.len() as int] == p.binding);
            }
        }
        assert forall|x: Seq<char>| #[trigger] fin.consumed.contains(x)
            implies init.consumed.contains(x) || exists|m: int| 0 <= m < k && (#[trigger] ps[m]).inputs.contains(x) by {
            lemma_inputs_consume(mid, p.inputs, params, func, file, p.line, p.col, k as nat, x);
            if p.inputs.contains(x) {
                assert(ps[k - 1].inputs.contains(x));
            } else {
                assert(mid.consumed.contains(x));
            }
        }
        assert forall|x: Seq<char>| #[trigger] fin.bound.contains(x)
            implies init.bound.contains(x) || exists|m: int| 0 <= m < k && (#[trigger] ps[m]).binding == x by {
            if x == p.binding {
                assert(ps[k - 1].binding == x);
            } else {
                if !st1.bound.contains(p.binding) {
                    let i = choose|i: int| 0 <= i < fin.bound.len() && fin.bound[i] == x;
                    assert(mid.bound[i] == x);
                }
                assert(mid.bound.contains(x));
                if !init.bound.contains(x) {
                    let m = choose|m: int| 0 <= m < k - 1 && (#[trigger] ps[m]).binding == x;
                    assert(ps[m].binding == x);
                }
            }
        }
    }
}

proof fn lemma_unused_reported(bound: Seq<Seq<char>>, consumed: Seq<Seq<char>>, out_name: Seq<char>, func: Seq<char>, file: Seq<char>, b: Seq<char>)
    requires
        bound.contains(b),
        b != out_name,
        !consumed.contains(b),
    ensures
        unused_errs(bound, consumed, out_name, func, file).contains(whole(file, m_unused(func, b))),
    decreases bound.len(),
{
    let rest = unused_errs(bound.drop_last(), consumed, out_name, func, file);
    let e = whole(file, m_unused(func, b));
    if bound.last() == b {
        assert(rest.push(e)[rest.len() as int] == e);
    } else {
        let k = choose|k: int| 0 <= k < bound.len() && bound[k] == b;
        assert(bound.drop_last()[k] == b);
        lemma_unused_reported(bound.drop_last(), consumed, out_name, func, file, b);
        let i = choose|i: int| 0 <= i < rest.len() && rest[i] == e;
        let x = bound.last();
        if x != out_name && !consumed.contains(x) {
            assert(rest.push(whole(file, m_unused(func, x)))[i] == e);
        }
    }
}

/// Every binding must be consumed by a later pipe, except the output: a
/// binding that is not the output and that no pipe takes as input is reported.
pub proof fn law_unused_binding_reported(
    ps: Seq<PipeM>,
    func: Seq<char>,
    out_name: Seq<char>,
    params: Seq<ParamM>,
    file: Seq<char>,
    callable: Seq<Seq<char>>,
    is_skirmish: bool,
    i: int,
)
    requires
        0 <= i < ps.len(),
        ps[i].binding != out_name,
        forall|m: int| 0 <= m < ps.len() ==> !(#[trigger] ps[m]).inputs.contains(ps[i].binding),
    ensures
        bullets_errs(ps, func, out_name, params, file, callable, is_skirmish).contains(whole(file, m_unused(func, ps[i].binding))),
{
    let init = PipeScan {
        errs: if ps.len() > 5 { seq![whole(file, m_too_many_bullets(func, ps.len()))] } else { Seq::empty() },
        bound: Seq::empty(),
        consumed: Seq::empty(),
    };
    let b = ps[i].binding;
    lemma_scan_names(init, ps, ps.len(), param_names(params), func, out_name, file, callable, is_skirmish);
    let st = pipes_scan(init, ps, ps.len(), param_names(params), func, out_name, file, callable, is_skirmish);
    assert(st.bound.contains(b));
    assert(!st.consumed.contains(b)) by {
        if st.consumed.contains(b) {
            let m = choose|m: int| 0 <= m < ps.len() && (#[trigger] ps[m]).inputs.contains(b);
        }
    }
    lemma_unused_reported(st.bound, st.consumed, out_name, func, file, b);
    let u = unused_errs(st.bound, st.consumed, out_name, func, file);
    let e = whole(file, m_unused(func, b));
    let k = choose|k: int| 0 <= k < u.len() && u[k] == e;
    assert((st.errs + u)[st.errs.len() + k] == e);
}

/// No binding may be assigned twice: a pipe that binds a name an earlier
/// pipe bound is reported, at that pipe.
pub proof fn law_rebinding_reported(
    ps: Seq<PipeM>,
    func: Seq<char>,
    out_name: Seq<char>,
    params: Seq<ParamM>,
    file: Seq<char>,
    callable: Seq<Seq<char>>,
    is_skirmish: bool,
    i: int,
    j: int,
)
    requires
        0 <= i < j < ps.len(),
        ps[i].binding == ps[j].binding,
    ensures
        bullets_errs(ps, func, out_name, params, file, callable, is_skirmish).contains(
            at_span(file, ps[j].line, ps[j].col, m_assigned_twice(func, ps[j].binding)),
        ),
{
    let init = PipeScan {
        errs: if ps.len() > 5 { seq![whole(file, m_too_many_bullets(func, ps.len()))] } else { Seq::empty() },
        bound: Seq::empty(),
        consumed: Seq::empty(),
    };
    let pn = param_names(params);
    let last: nat = (ps.len() - 1) as nat;
    let p = ps[j];
    let e = at_span(file, p.line, p.col, m_assigned_twice(func, p.binding));
    lemma_scan_names(init, ps, j as nat, pn, func, out_name, file, callable, is_skirmish);
    let mid = pipes_scan(init, ps, j as nat, pn, func, out_name, file, callable, is_skirmish);
    assert(mid.bound.contains(ps[i].binding));
    lemma_inputs_grow(mid, p.inputs, pn, func, file, p.line, p.col, (j + 1) as nat);
    let st1 = inputs_step(mid, p.inputs, pn, func, file, p.line, p.col, (j + 1) as nat);
    let e2 = st1.errs + expr_errs(p.expr, func, file, p.line, p.col, callable, is_skirmish);
    let e3 = e2.push(e);
    let step = pipes_scan(init, ps, (j + 1) as nat, pn, func, out_name, file, callable, is_skirmish);
    assert(step == pipe_step(mid, p, j as nat, last, pn, func, out_name, file, callable, is_skirmish));
    assert(step.errs[e2.len() as int] == e) by {
        if j as nat == last && p.binding != out_name {
            assert(step.errs == e3.push(at_span(file, p.line, p.col, m_last_mismatch(func, p.binding, out_name))));
        } else {
            assert(step.errs == e3);
        }
    }
    lemma_scan_from(init, ps, (j + 1) as nat, ps.len(), pn, func, out_name, file, callable, is_skirmish);
    let st = pipes_scan(init, ps, ps.len(), pn, func, out_name, file, callable, is_skirmish);
    assert(st.errs.subrange(0, step.errs.len() as int) == step.errs);
    assert(st.errs[e2.len() as int] == e);
    let all = bullets_errs(ps, func, out_name, params, file, callable, is_skirmish);
    assert(all[e2.len() as int] == e);
}

/// The errors after `k1` pipes are a prefix of those after `k2 >= k1`.
proof fn lemma_scan_from(
    init: PipeScan,
    ps: Seq<PipeM>,
    k1: nat,
    k2: nat,
    params: Seq<Seq<char>>,
    func: Seq<char>,
    out_name: Seq<char>,
    file: Seq<char>,
    callable: Seq<Seq<char>>,
    is_skirmish: bool,
)
    requires
        k1 <= k2,
    ensures
        is_prefix(
            pipes_scan(init, ps, k1, params, func, out_name, file, callable, is_skirmish).errs,
            pipes_scan(init, ps, k2, params, func, out_name, file, callable, is_skirmish).errs,
        ),
    decreases k2,
{
    let a = pipes_scan(init, ps, k1, params, func, out_name, file, callable, is_skirmish).errs;
    if k2 > k1 {
        lemma_scan_from(init, ps, k1, (k2 - 1) as nat, params, func, out_name, file, callable, is_skirmish);
        let last: nat = if ps.len() == 0 { 0 } else { (ps.len() - 1) as nat };
        let mid = pipes_scan(init, ps, (k2 - 1) as nat, params, func, out_name, file, callable, is_skirmish);
        lemma_step_grows(mid, ps[k2 - 1], (k2 - 1) as nat, last, params, func, out_name, file, callable, is_skirmish);
        let fin = pipes_scan(init, ps, k2, params, func, out_name, file, callable, is_skirmish);
        assert(fin.errs.subrange(0, a.len() as int) =~= a) by {
            assert(fin.errs.subrange(0, mid.errs.len() as int) == mid.errs);
            assert(mid.errs.subrange(0, a.len() as int) == a);
        }
    } else {
        assert(a.subrange(0, a.len() as int) =~= a);
    }
}


proof fn lemma_input_reported(
    st: PipeScan,
    xs: Seq<Seq<char>>,
    params: Seq<Seq<char>>,
    func: Seq<char>,
    file: Seq<char>,
    line: nat,
    col: nat,
    n: nat,
    x: Seq<char>,
)
    requires
        xs.contains(x),
        !params.contains(x),
        !st.bound.contains(x),
    ensures
        inputs_step(st, xs, params, func, file, line, col, n).errs.contains(at_span(file, line, col, m_unknown_input(func, n, x))),
    decreases xs.len(),
{
    let e = at_span(file, line, col, m_unknown_input(func, n, x));
    let mid = inputs_step(st, xs.drop_last(), params, func, file, line, col, n);
    lemma_inputs_grow(st, xs.drop_last(), params, func, file, line, col, n);
    if xs.last() == x {
        assert(mid.errs.push(e)[mid.errs.len() as int] == e);
    } else {
        let k = choose|k: int| 0 <= k < xs.len() && xs[k] == x;
        assert(xs.drop_last()[k] == x);
        lemma_input_reported(st, xs.drop_last(), params, func, file, line, col, n, x);
        let i = choose|i: int| 0 <= i < mid.errs.len() && mid.errs[i] == e;
        let y = xs.last();
        if !(params.contains(y) || mid.bound.contains(y)) {
            assert(mid.errs.push(at_span(file, line, col, m_unknown_input(func, n, y)))[i] == e);
        }
    }
}

/// Each pipe takes its inputs from the parameters or from names bound by
/// earlier pipes: an input that is neither is reported, at its pipe.
pub proof fn law_unknown_input_reported(
    ps: Seq<PipeM>,
    func: Seq<char>,
    out_name: Seq<char>,
    params: Seq<ParamM>,
    file: Seq<char>,
    callable: Seq<Seq<char>>,
    is_skirmish: bool,
    j: int,
    x: Seq<char>,
)
    requires
        0 <= j < ps.len(),
        ps[j].inputs.contains(x),
        !param_names(params).contains(x),
        forall|m: int| 0 <= m < j ==> (#[trigger] ps[m]).binding != x,
    ensures
        bullets_errs(ps, func, out_name, params, file, callable, is_skirmish).contains(
            at_span(file, ps[j].line, ps[j].col, m_unknown_input(func, (j + 1) as nat, x)),
        ),
{
    let init = PipeScan {
        errs: if ps.len() > 5 { seq![whole(file, m_too_many_bullets(func, ps.len()))] } else { Seq::empty() },
        bound: Seq::empty(),
        consumed: Seq::empty(),
    };
    let pn = param_names(params);
    let last: nat = (ps.len() - 1) as nat;
    let p = ps[j];
    let e = at_span(file, p.line, p.col, m_unknown_input(func, (j + 1) as nat, x));
    lemma_scan_names(init, ps, j as nat, pn, func, out_name, file, callable, is_skirmish);
    let mid = pipes_scan(init, ps, j as nat, pn, func, out_name, file, callable, is_skirmish);
    assert(!mid.bound.contains(x));
    lemma_input_reported(mid, p.inputs, pn, func, file, p.line, p.col, (j + 1) as nat, x);
    let st1 = inputs_step(mid, p.inputs, pn, func, file, p.line, p.col, (j + 1) as nat);
    let i = choose|i: int| 0 <= i < st1.errs.len() && st1.errs[i] == e;
    let step = pipes_scan(init, ps, (j + 1) as nat, pn, func, out_name, file, callable, is_skirmish);
    assert(step == pipe_step(mid, p, j as nat, last, pn, func, out_name, file, callable, is_skirmish));
    let e2 = st1.errs + expr_errs(p.expr, func, file, p.line, p.col, callable, is_skirmish);
    assert(e2[i] == e);
    assert(step.errs.subrange(0, e2.len() as int) =~= e2);
    assert(step.errs[i] == e);
    lemma_scan_from(init, ps, (j + 1) as nat, ps.len(), pn, func, out_name, file, callable, is_skirmish);
    let st = pipes_scan(init, ps, ps.len(), pn, func, out_name, file, callable, is_skirmish);
    assert(st.errs.subrange(0, step.errs.len() as int) == step.errs);
    assert(st.errs[i] == e);
    let all = bullets_errs(ps, func, out_name, params, file, callable, is_skirmish);
    assert(all[i] == e);
}


// ── A function that passes ───────────────────────────────────────────────────

/// The rules of a pipe chain, as the generated README states them: at most
/// five pipes; each input is a parameter or a name an earlier pipe bound; no
/// name is bound twice; the last pipe binds the output; every other binding
/// is an input of a later pipe; and no operand is a refused call.
pub open spec fn pipes_follow_rules(
    ps: Seq<PipeM>,
    func: Seq<char>,
    out_name: Seq<char>,
    params: Seq<ParamM>,
    file: Seq<char>,
    callable: Seq<Seq<char>>,
    is_skirmish: bool,
) -> bool {
    &&& ps.len() <= 5
    &&& forall|i: int, x: Seq<char>| 0 <= i < ps.len() && (#[trigger] ps[i].inputs.contains(x))
        ==> param_names(params).contains(x) || exists|m: int| 0 <= m < i && (#[trigger] ps[m]).binding == x
    &&& forall|i: int, j: int| 0 <= i < j < ps.len() ==> (#[trigger] ps[i]).binding != (#[trigger] ps[j]).binding
    &&& ps.len() > 0 ==> ps.last().binding == out_name
    &&& forall|j: int| 0 <= j < ps.len() && (#[trigger] ps[j]).binding != out_name
        ==> exists|k: int| j < k < ps.len() && (#[trigger] ps[k]).inputs.contains(ps[j].binding)
    &&& forall|i: int| 0 <= i < ps.len() ==> expr_errs(
        (#[trigger] ps[i]).expr,
        func,
        file,
        ps[i].line,
        ps[i].col,
        callable,
        is_skirmish,
    ).len() == 0
}

proof fn lemma_inputs_clean(
    st: PipeScan,
    xs: Seq<Seq<char>>,
    params: Seq<Seq<char>>,
    func: Seq<char>,
    file: Seq<char>,
    line: nat,
    col: nat,
    n: nat,
)
    ensures
        (forall|x: Seq<char>| #[trigger] xs.contains(x) ==> params.contains(x) || st.bound.contains(x))
            ==> inputs_step(st, xs, params, func, file, line, col, n).errs == st.errs,
        forall|y: Seq<char>| #[trigger] st.consumed.contains(y) ==> inputs_step(st, xs, params, func, file, line, col, n).consumed.contains(y),
        forall|x: Seq<char>| #[trigger] xs.contains(x) && (params.contains(x) || st.bound.contains(x))
            ==> inputs_step(st, xs, params, func, file, line, col, n).consumed.contains(x),
    decreases xs.len(),
{
    if xs.len() > 0 {
        let pre = xs.drop_last();
        lemma_inputs_clean(st, pre, params, func, file, line, col, n);
        lemma_inputs_grow(st, pre, params, func, file, line, col, n);
        let mid = inputs_step(st, pre, params, func, file, line, col, n);
        let fin = inputs_step(st, xs, params, func, file, line, col, n);
        let z = xs.last();
        assert(forall|x: Seq<char>| #[trigger] pre.contains(x) ==> xs.contains(x)) by {
            assert forall|x: Seq<char>| #[trigger] pre.contains(x) implies xs.contains(x) by {
                let k = choose|k: int| 0 <= k < pre.len() && pre[k] == x;
                assert(xs[k] == x);
            }
        }
        assert(xs.contains(z)) by { assert(xs[xs.len() - 1] == z); }
        assert forall|y: Seq<char>| #[trigger] mid.consumed.contains(y) implies fin.consumed.contains(y) by {
            if params.contains(z) || mid.bound.contains(z) {
                let k = choose|k: int| 0 <= k < mid.consumed.len() && mid.consumed[k] == y;
                assert(mid.consumed.push(z)[k] == y);
            }
        }
        assert forall|x: Seq<char>| #[trigger] xs.contains(x) && (params.contains(x) || st.bound.contains(x))
            implies fin.consumed.contains(x) by {
            if x == z {
                assert(mid.consumed.push(z)[mid.consumed.len() as int] == z);
            } else {
                let k = choose|k: int| 0 <= k < xs.len() && xs[k] == x;
                assert(pre[k] == x);
                assert(pre.contains(x));
                assert(mid.consumed.contains(x));
            }
        }
    }
}

/// Under the rules, the scan of the first `k` pipes finds no error, and it
/// has consumed every input of those pipes that was known at its pipe.
proof fn lemma_scan_clean(
    ps: Seq<PipeM>,
    k: nat,
    func: Seq<char>,
    out_name: Seq<char>,
    params: Seq<ParamM>,
    file: Seq<char>,
    callable: Seq<Seq<char>>,
    is_skirmish: bool,
)
    requires
        k <= ps.len(),
        pipes_follow_rules(ps, func, out_name, params, file, callable, is_skirmish),
    ensures
        pipes_scan(
            PipeScan { errs: Seq::empty(), bound: Seq::empty(), consumed: Seq::empty() },
            ps, k, param_names(params), func, out_name, file, callable, is_skirmish,
        ).errs.len() == 0,
        forall|i: int, x: Seq<char>| 0 <= i < k && (#[trigger] ps[i].inputs.contains(x))
            && (param_names(params).contains(x) || exists|m: int| 0 <= m < i && (#[trigger] ps[m]).binding == x)
            ==> pipes_scan(
                PipeScan { errs: Seq::empty(), bound: Seq::empty(), consumed: Seq::empty() },
                ps, k, param_names(params), func, out_name, file, callable, is_skirmish,
            ).consumed.contains(x),
    decreases k,
{
    let init = PipeScan { errs: Seq::empty(), bound: Seq::empty(), consumed: Seq::empty() };
    let pn = param_names(params);
    if k > 0 {
        lemma_scan_clean(ps, (k - 1) as nat, func, out_name, params, file, callable, is_skirmish);
        lemma_scan_names(init, ps, (k - 1) as nat, pn, func, out_name, file, callable, is_skirmish);
        let last: nat = (ps.len() - 1) as nat;
        let mid = pipes_scan(init, ps, (k - 1) as nat, pn, func, out_name, file, callable, is_skirmish);
        let p = ps[k - 1];
        let i0 = k - 1;
        lemma_inputs_clean(mid, p.inputs, pn, func, file, p.line, p.col, k as nat);
        lemma_inputs_grow(mid, p.inputs, pn, func, file, p.line, p.col, k as nat);
        let st1 = inputs_step(mid, p.inputs, pn, func, file, p.line, p.col, k as nat);
        assert forall|x: Seq<char>| #[trigger] p.inputs.contains(x) implies pn.contains(x) || mid.bound.contains(x) by {
            assert(ps[i0].inputs.contains(x));
            if !pn.contains(x) {
                let m = choose|m: int| 0 <= m < i0 && (#[trigger] ps[m]).binding == x;
                assert(mid.bound.contains(ps[m].binding));
            }
        }
        assert(st1.errs == mid.errs);
        assert(!st1.bound.contains(p.binding)) by {
            if mid.bound.contains(p.binding) {
                let m = choose|m: int| 0 <= m < i0 && (#[trigger] ps[m]).binding == p.binding;
                assert(ps[m].binding != ps[i0].binding);
            }
        }
        assert(expr_errs(ps[i0].expr, func, file, ps[i0].line, ps[i0].col, callable, is_skirmish).len() == 0);
        assert(i0 == last ==> p.binding == out_name) by {
            if i0 == last {
                assert(ps.last() == ps[i0]);
            }
        }
        let fin = pipes_scan(init, ps, k, pn, func, out_name, file, callable, is_skirmish);
        assert(fin == pipe_step(mid, p, i0 as nat, last, pn, func, out_name, file, callable, is_skirmish));
        assert(fin.errs.len() == 0);
        assert(fin.consumed == st1.consumed);
        assert forall|i: int, x: Seq<char>| 0 <= i < k && (#[trigger] ps[i].inputs.contains(x))
            && (pn.contains(x) || exists|m: int| 0 <= m < i && (#[trigger] ps[m]).binding == x)
            implies fin.consumed.contains(x) by {
            if i < i0 {
                assert(mid.consumed.contains(x));
            } else {
                if !pn.contains(x) {
                    let m = choose|m: int| 0 <= m < i && (#[trigger] ps[m]).binding == x;
                    assert(mid.bound.contains(ps[m].binding));
                }
            }
        }
    }
}

proof fn lemma_unused_clean(bound: Seq<Seq<char>>, consumed: Seq<Seq<char>>, out_name: Seq<char>, func: Seq<char>, file: Seq<char>)
    requires
        forall|b: Seq<char>| #[trigger] bound.contains(b) ==> b == out_name || consumed.contains(b),
    ensures
        unused_errs(bound, consumed, out_name, func, file).len() == 0,
    decreases bound.len(),
{
    if bound.len() > 0 {
        assert forall|b: Seq<char>| #[trigger] bound.drop_last().contains(b) implies b == out_name || consumed.contains(b) by {
            let k = choose|k: int| 0 <= k < bound.drop_last().len() && bound.drop_last()[k] == b;
            assert(bound[k] == b);
            assert(bound.contains(b));
        }
        lemma_unused_clean(bound.drop_last(), consumed, out_name, func, file);
        assert(bound.contains(bound.last())) by { assert(bound[bound.len() - 1] == bound.last()); }
    }
}

/// The errors of an operand of pipe `i` are among the function's errors.
proof fn lemma_expr_errs_reported(
    ps: Seq<PipeM>,
    func: Seq<char>,
    out_name: Seq<char>,
    params: Seq<ParamM>,
    file: Seq<char>,
    callable: Seq<Seq<char>>,
    is_skirmish: bool,
    i: int,
)
    requires
        0 <= i < ps.len(),
        expr_errs(ps[i].expr, func, file, ps[i].line, ps[i].col, callable, is_skirmish).len() > 0,
    ensures
        bullets_errs(ps, func, out_name, params, file, callable, is_skirmish).len() > 0,
{
    let init = PipeScan {
        errs: if ps.len() > 5 { seq![whole(file, m_too_many_bullets(func, ps.len()))] } else { Seq::empty() },
        bound: Seq::empty(),
        consumed: Seq::empty(),
    };
    let pn = param_names(params);
    let last: nat = (ps.len() - 1) as nat;
    let p = ps[i];
    let mid = pipes_scan(init, ps, i as nat, pn, func, out_name, file, callable, is_skirmish);
    let st1 = inputs_step(mid, p.inputs, pn, func, file, p.line, p.col, (i + 1) as nat);
    let step = pipes_scan(init, ps, (i + 1) as nat, pn, func, out_name, file, callable, is_skirmish);
    assert(step == pipe_step(mid, p, i as nat, last, pn, func, out_name, file, callable, is_skirmish));
    let e2 = st1.errs + expr_errs(p.expr, func, file, p.line, p.col, callable, is_skirmish);
    assert(step.errs.len() >= e2.len());
    lemma_scan_from(init, ps, (i + 1) as nat, ps.len(), pn, func, out_name, file, callable, is_skirmish);
}

/// A function's pipe chain passes the check exactly when it follows the
/// rules (for a function none of whose bindings is named like a parameter).
pub proof fn law_pipes_pass_iff_rules(
    ps: Seq<PipeM>,
    func: Seq<char>,
    out_name: Seq<char>,
    params: Seq<ParamM>,
    file: Seq<char>,
    callable: Seq<Seq<char>>,
    is_skirmish: bool,
)
    requires
        forall|j: int| 0 <= j < ps.len() ==> !param_names(params).contains((#[trigger] ps[j]).binding),
    ensures
        bullets_errs(ps, func, out_name, params, file, callable, is_skirmish).len() == 0
            <==> pipes_follow_rules(ps, func, out_name, params, file, callable, is_skirmish),
{
    let pn = param_names(params);
    let all = bullets_errs(ps, func, out_name, params, file, callable, is_skirmish);
    if pipes_follow_rules(ps, func, out_name, params, file, callable, is_skirmish) {
        let init = PipeScan { errs: Seq::empty(), bound: Seq::empty(), consumed: Seq::empty() };
        lemma_scan_clean(ps, ps.len(), func, out_name, params, file, callable, is_skirmish);
        lemma_scan_names(init, ps, ps.len(), pn, func, out_name, file, callable, is_skirmish);
        let st = pipes_scan(init, ps, ps.len(), pn, func, out_name, file, callable, is_skirmish);
        assert forall|b: Seq<char>| #[trigger] st.bound.contains(b) implies b == out_name || st.consumed.contains(b) by {
            let j = choose|j: int| 0 <= j < ps.len() && (#[trigger] ps[j]).binding == b;
            if b != out_name {
                let k = choose|k: int| j < k < ps.len() && (#[trigger] ps[k]).inputs.contains(ps[j].binding);
                assert(ps[k].inputs.contains(b));
                assert(exists|m: int| 0 <= m < k && (#[trigger] ps[m]).binding == b);
            }
        }
        lemma_unused_clean(st.bound, st.consumed, out_name, func, file);
    } else if all.len() == 0 {
        if ps.len() > 5 {
            law_bullet_limit_reported(ps, func, out_name, params, file, callable, is_skirmish);
        }
        if exists|i: int, x: Seq<char>| 0 <= i < ps.len() && (#[trigger] ps[i].inputs.contains(x))
            && !(pn.contains(x) || exists|m: int| 0 <= m < i && (#[trigger] ps[m]).binding == x) {
            let (i, x) = choose|i: int, x: Seq<char>| 0 <= i < ps.len() && (#[trigger] ps[i].inputs.contains(x))
                && !(pn.contains(x) || exists|m: int| 0 <= m < i && (#[trigger] ps[m]).binding == x);
            law_unknown_input_reported(ps, func, out_name, params, file, callable, is_skirmish, i, x);
        }
        if exists|i: int, j: int| 0 <= i < j < ps.len() && (#[trigger] ps[i]).binding == (#[trigger] ps[j]).binding {
            let (i, j) = choose|i: int, j: int| 0 <= i < j < ps.len() && (#[trigger] ps[i]).binding == (#[trigger] ps[j]).binding;
            law_rebinding_reported(ps, func, out_name, params, file, callable, is_skirmish, i, j);
        }
        if ps.len() > 0 && ps.last().binding != out_name {
            law_last_binding_checked(ps, func, out_name, params, file, callable, is_skirmish);
        }
        if exists|i: int| 0 <= i < ps.len() && expr_errs(
            (#[trigger] ps[i]).expr, func, file, ps[i].line, ps[i].col, callable, is_skirmish).len() != 0 {
            let i = choose|i: int| 0 <= i < ps.len() && expr_errs(
                (#[trigger] ps[i]).expr, func, file, ps[i].line, ps[i].col, callable, is_skirmish).len() != 0;
            lemma_expr_errs_reported(ps, func, out_name, params, file, callable, is_skirmish, i);
        }
        if exists|j: int| 0 <= j < ps.len() && (#[trigger] ps[j]).binding != out_name
            && !exists|k: int| j < k < ps.len() && (#[trigger] ps[k]).inputs.contains(ps[j].binding) {
            let j = choose|j: int| 0 <= j < ps.len() && (#[trigger] ps[j]).binding != out_name
                && !exists|k: int| j < k < ps.len() && (#[trigger] ps[k]).inputs.contains(ps[j].binding);
            let b = ps[j].binding;
            assert forall|m: int| 0 <= m < ps.len() implies !(#[trigger] ps[m]).inputs.contains(b) by {
                if ps[m].inputs.contains(b) && m <= j {
                    assert(!pn.contains(b));
                    let q = choose|q: int| 0 <= q < m && (#[trigger] ps[q]).binding == b;
                    assert(ps[q].binding == ps[j].binding);
                }
            }
            law_unused_binding_reported(ps, func, out_name, params, file, callable, is_skirmish, j);
        }
    }
}


proof fn lemma_rank_sources(f: FolderM, inv: InventoryM)
    requires
        inv.rank != Rank::Skirmish,
        sources(f.files).len() > 0,
        rank_check(f, inv) is Ok,
    ensures
        rank_check(f, inv)->Ok_0.len() > 0,
{
    let nf = sources(f.files).len();
    let ns = f.subdirs.len();
    match inv.rank {
        Rank::War => {
            let head = one(nf > 0, whole(f.path, m_war_sources(nf))) + one(ns > 5, whole(f.path, m_war_theaters(ns)))
                + one(inv.entries.len() > 0, whole(join_path(f.path, "inventory.bu"@), "War inventory cannot list any files."@));
            let rest = chain(
                children_rank_check(f.subdirs, Rank::Theater),
                match find_file(f.files, "main.bu"@) {
                    Some(mf) => match folders_callable(f.subdirs) {
                        Ok(c) => main_check(mf, c),
                        Err(m) => Err(m),
                    },
                    None => Ok(Seq::empty()),
                },
            );
            assert(war_check(f, inv) == chain(Ok(head), rest));
            lemma_chain_ok(Ok(head), rest);
            assert(head.len() > 0);
        },
        Rank::Skirmish => {},
        _ => {
            let r = inv.rank;
            let c = rank_child(r).unwrap();
            let head = one(ns > 5, whole(f.path, m_rank_subdirs(r, c, ns))) + one(nf > 0, whole(f.path, m_rank_sources(r, nf)));
            let rest = chain(
                children_rank_check(f.subdirs, c),
                chain(completeness(f.path, f.files, inv, sources(f.files)), calls_check(f)),
            );
            assert(middle_check(f, inv) == chain(Ok(head), rest));
            lemma_chain_ok(Ok(head), rest);
            assert(head.len() > 0);
        },
    }
}

/// Source files live only in skirmish folders: a folder of any other rank
/// that holds one never passes its check.
pub proof fn law_sources_only_in_skirmish(f: FolderM)
    requires
        inventory_of(f) matches LoadedM::Found(inv) && inv.rank != Rank::Skirmish,
        sources(f.files).len() > 0,
        folder_check(f) is Ok,
    ensures
        folder_check(f)->Ok_0.len() > 0,
{
    let inv = inventory_of(f)->Found_0;
    lemma_chain_ok(folders_check(f.subdirs), rank_check(f, inv));
    lemma_rank_sources(f, inv);
}

} // verus!
