//! Reading Bullang source text into syntax trees, as the grammar states.

use vstd::prelude::*;
use crate::ast::{
    Atom, Backend, BinExpr, BuFile, BuType, Bullet, BulletBody, CallArg, Expr, InventoryEntry,
    InventoryFile, OutputDecl, Param, Pipe, Rank, SourceFile, Span, TyModel, rank_for_name, ty_model,
    tys_model,
};
use crate::grammar::{
    InvState, Outcome, arrow, at, atom, backend_for_keyword, body, bullet, bullet_rest, bullets,
    call_arg, call_args, digit_run, digits_value, directive, empty_inv, end_marker, expr, expr_list,
    fits_i64, fn_names, ident, ident_run, int_end, int_start, int_value, inv_item, inv_items,
    inventory_file, is_alpha, is_digit, is_ident_char, is_ident_start, is_space, lang_for_ext,
    lc_from, lemma_quote_end, lemma_runs, lemma_skip_from, lemma_skip_spaces, line_col, name_list,
    op_len, param, param_list, pipe, pipe_val, pipes, punct, quote_end, semi_index, skip_from,
    skip_spaces, skip_ws, source_file, string_atom, ty, ty_list,
};
use crate::model::{
    ArgM, AtomM, BackendM, BodyM, BulletM, EntryM, ExprM, InventoryM, ParamM, PipeM, arg_m, args_m,
    atom_m, backend_m, body_m, bullet_m, bullets_m, entries_m, entry_m, expr_m, exprs_m,
    inventory_m, lemma_exprs_m, param_m, params_m, pipe_m, pipes_m, source_m, strs_m, bufile_m, BuFileM,
};
use crate::text::{chars_of, slice_string, string_from_chars, trimmed};

verus! {

/// The result of one parsing step.
pub enum Res<T> {
    Done(T, usize),
    Fail(usize, &'static str),
    Abort(&'static str),
}

/// `r` is the outcome `o`, its value taken through `f`.
pub open spec fn holds<T, M>(r: Res<T>, o: Outcome<M>, f: spec_fn(T) -> M) -> bool {
    match r {
        Res::Done(v, e) => o == Outcome::Done(f(v), e as int),
        Res::Fail(p, m) => o == Outcome::<M>::Fail(p as int, m@),
        Res::Abort(m) => o == Outcome::<M>::Abort(m@),
    }
}

/// Positions in a result stay within the input.
pub open spec fn bounded<T>(r: Res<T>, i: int, n: int) -> bool {
    match r {
        Res::Done(_, e) => i <= e <= n,
        Res::Fail(p, _) => p <= n,
        Res::Abort(_) => true,
    }
}

// ── Characters ───────────────────────────────────────────────────────────────

fn space(c: char) -> (r: bool)
    ensures r == is_space(c),
{
    c == ' ' || c == '\t' || c == '\r' || c == '\n'
}

fn alpha(c: char) -> (r: bool)
    ensures r == is_alpha(c),
{
    ('a' <= c && c <= 'z') || ('A' <= c && c <= 'Z')
}

fn digit(c: char) -> (r: bool)
    ensures r == is_digit(c),
{
    '0' <= c && c <= '9'
}

fn ident_start(c: char) -> (r: bool)
    ensures r == is_ident_start(c),
{
    alpha(c) || c == '_'
}

fn ident_char(c: char) -> (r: bool)
    ensures r == is_ident_char(c),
{
    alpha(c) || digit(c) || c == '_'
}

fn is_at(s: &Vec<char>, j: usize, c: char) -> (r: bool)
    ensures r == at(s@, j as int, c),
{
    j < s.len() && s[j] == c
}

// ── Layout and words ─────────────────────────────────────────────────────────

fn skip_layout(s: &Vec<char>, i: usize) -> (r: usize)
    requires i <= s.len(),
    ensures r == skip_ws(s@, i as int), i <= r <= s.len(),
{
    let mut k = i;
    let mut in_comment = false;
    proof { lemma_skip_from(s@, i as int, false); }
    while k < s.len()
        invariant
            i <= k <= s.len(),
            skip_from(s@, k as int, in_comment) == skip_ws(s@, i as int),
        decreases s.len() - k,
    {
        if in_comment {
            in_comment = s[k] != '\n';
            k = k + 1;
        } else if space(s[k]) {
            k = k + 1;
        } else if s[k] == '/' && is_at(s, k + 1, '/') {
            in_comment = true;
            k = k + 2;
        } else {
            return k;
        }
    }
    k
}

fn skip_blank(s: &Vec<char>, i: usize) -> (r: usize)
    requires i <= s.len(),
    ensures r == skip_spaces(s@, i as int), i <= r <= s.len(),
{
    let mut k = i;
    while k < s.len() && space(s[k])
        invariant
            i <= k <= s.len(),
            skip_spaces(s@, k as int) == skip_spaces(s@, i as int),
        decreases s.len() - k,
    {
        k = k + 1;
    }
    k
}

fn run_ident(s: &Vec<char>, i: usize) -> (r: usize)
    requires i <= s.len(),
    ensures r == ident_run(s@, i as int), i <= r <= s.len(),
{
    let mut k = i;
    while k < s.len() && ident_char(s[k])
        invariant
            i <= k <= s.len(),
            ident_run(s@, k as int) == ident_run(s@, i as int),
        decreases s.len() - k,
    {
        k = k + 1;
    }
    k
}

fn run_digits(s: &Vec<char>, i: usize) -> (r: usize)
    requires i <= s.len(),
    ensures
        r == digit_run(s@, i as int),
        i <= r <= s.len(),
        forall|t: int| i <= t < r ==> is_digit(#[trigger] s@[t]),
{
    let mut k = i;
    while k < s.len() && digit(s[k])
        invariant
            i <= k <= s.len(),
            digit_run(s@, k as int) == digit_run(s@, i as int),
            forall|t: int| i <= t < k ==> is_digit(#[trigger] s@[t]),
        decreases s.len() - k,
    {
        k = k + 1;
    }
    k
}

/// The cap above which a digit run's exact value no longer matters.
pub open spec fn cap() -> nat {
    0x1_0000_0000_0000_0000
}

pub open spec fn capped(n: nat) -> nat {
    if n < cap() { n } else { cap() }
}

proof fn lemma_digits_step(d: Seq<char>, c: char)
    requires is_digit(c),
    ensures
        digits_value(d.push(c)) == digits_value(d) * 10 + (c as int - '0' as int),
        capped(digits_value(d.push(c))) == capped(capped(digits_value(d)) * 10 + (c as int - '0' as int) as nat),
{
    assert(d.push(c).drop_last() =~= d);
    let v = digits_value(d);
    let dd = (c as int - '0' as int) as nat;
    if v >= cap() {
        assert(v * 10 + dd >= cap()) by (nonlinear_arith) requires v >= cap();
        assert(cap() * 10 + dd >= cap()) by (nonlinear_arith);
    }
}

/// `min(value of s[from..to], 2^64)`.
fn digits_capped(s: &Vec<char>, from: usize, to: usize) -> (r: u128)
    requires
        from <= to <= s.len(),
        forall|t: int| from <= t < to ==> is_digit(#[trigger] s@[t]),
    ensures
        r == capped(digits_value(s@.subrange(from as int, to as int))),
{
    let mut v: u128 = 0;
    let mut k = from;
    assert(s@.subrange(from as int, from as int) =~= Seq::<char>::empty());
    while k < to
        invariant
            from <= k <= to <= s.len(),
            forall|t: int| from <= t < to ==> is_digit(#[trigger] s@[t]),
            v == capped(digits_value(s@.subrange(from as int, k as int))),
        decreases to - k,
    {
        let c = s[k];
        assert(is_digit(s@[k as int]));
        proof {
            assert(s@.subrange(from as int, k + 1) =~= s@.subrange(from as int, k as int).push(c));
            lemma_digits_step(s@.subrange(from as int, k as int), c);
        }
        let d: u128 = (c as u32 - '0' as u32) as u128;
        let w: u128 = v * 10 + d;
        v = if w < 0x1_0000_0000_0000_0000 { w } else { 0x1_0000_0000_0000_0000 };
        k = k + 1;
    }
    v
}

fn p_ident(s: &Vec<char>, i: usize) -> (r: Res<String>)
    requires i <= s.len(),
    ensures
        holds(r, ident(s@, i as int), |x: String| x@),
        bounded(r, i as int, s.len() as int),
{
    let j = skip_layout(s, i);
    if j < s.len() && ident_start(s[j]) {
        let e = run_ident(s, j + 1);
        Res::Done(slice_string(s, j, e), e)
    } else {
        Res::Fail(j, "expected identifier")
    }
}

fn p_punct(s: &Vec<char>, i: usize, c: char, msg: &'static str) -> (r: Res<()>)
    requires i <= s.len(),
    ensures
        holds(r, punct(s@, i as int, c, msg@), |x: ()| ()),
        bounded(r, i as int, s.len() as int),
{
    let j = skip_layout(s, i);
    if is_at(s, j, c) {
        Res::Done((), j + 1)
    } else {
        Res::Fail(j, msg)
    }
}

fn p_arrow(s: &Vec<char>, i: usize) -> (r: Res<()>)
    requires i <= s.len(),
    ensures
        holds(r, arrow(s@, i as int), |x: ()| ()),
        bounded(r, i as int, s.len() as int),
{
    let j = skip_layout(s, i);
    if is_at(s, j, '-') && is_at(s, j + 1, '>') {
        Res::Done((), j + 2)
    } else {
        Res::Fail(j, "expected `->`")
    }
}


// ── Types ────────────────────────────────────────────────────────────────────

proof fn lemma_tys_push(v: Seq<BuType>, t: BuType)
    ensures tys_model(v.push(t)) == tys_model(v).push(ty_model(t)),
{
    assert(v.push(t).drop_last() =~= v);
}

fn p_ty(s: &Vec<char>, i: usize) -> (r: Res<BuType>)
    requires i <= s.len(),
    ensures
        holds(r, ty(s@, i as int), |t: BuType| ty_model(t)),
        bounded(r, i as int, s.len() as int),
    decreases s.len() - i, 0int,
{
    let j = skip_layout(s, i);
    if is_at(s, j, '(') {
        match p_punct(s, j + 1, ')', "expected `)`") {
            Res::Done(_, e) => Res::Done(BuType::Named(crate::text::owned("()")), e),
            Res::Fail(p, m) => Res::Fail(p, m),
            Res::Abort(m) => Res::Abort(m),
        }
    } else if is_at(s, j, '[') {
        match p_ty(s, j + 1) {
            Res::Done(t, e) => match p_punct(s, e, ';', "expected `;`") {
                Res::Done(_, e2) => {
                    let k = skip_layout(s, e2);
                    if k < s.len() && digit(s[k]) {
                        let d = run_digits(s, k);
                        let n = digits_capped(s, k, d);
                        if n > usize::MAX as u128 {
                            Res::Abort("array length out of range")
                        } else {
                            match p_punct(s, d, ']', "expected `]`") {
                                Res::Done(_, e3) => Res::Done(BuType::Array(Box::new(t), n as usize), e3),
                                Res::Fail(p, m) => Res::Fail(p, m),
                                Res::Abort(m) => Res::Abort(m),
                            }
                        }
                    } else {
                        Res::Fail(k, "expected array length")
                    }
                },
                Res::Fail(p, m) => Res::Fail(p, m),
                Res::Abort(m) => Res::Abort(m),
            },
            Res::Fail(p, m) => Res::Fail(p, m),
            Res::Abort(m) => Res::Abort(m),
        }
    } else if j < s.len() && ident_start(s[j]) {
        let e = run_ident(s, j + 1);
        let k = skip_layout(s, e);
        let name = slice_string(s, j, e);
        if is_at(s, k, '[') {
            if crate::text::str_eq(name.as_str(), "Fn") {
                match p_ty_list(s, k + 1, '-') {
                    Res::Done(_, e2) => match p_arrow(s, e2) {
                        Res::Done(_, e3) => if e3 > k {
                            match p_ty(s, e3) {
                                Res::Done(_, e4) => match p_punct(s, e4, ']', "expected `]`") {
                                    Res::Done(_, e5) => Res::Done(BuType::Named(slice_string(s, j, e5)), e5),
                                    Res::Fail(p, m) => Res::Fail(p, m),
                                    Res::Abort(m) => Res::Abort(m),
                                },
                                Res::Fail(p, m) => Res::Fail(p, m),
                                Res::Abort(m) => Res::Abort(m),
                            }
                        } else {
                            Res::Fail(e3, "expected type")
                        },
                        Res::Fail(p, m) => Res::Fail(p, m),
                        Res::Abort(m) => Res::Abort(m),
                    },
                    Res::Fail(p, m) => Res::Fail(p, m),
                    Res::Abort(m) => Res::Abort(m),
                }
            } else {
                match p_ty_list(s, k + 1, ']') {
                    Res::Done(ts, e2) => match p_punct(s, e2, ']', "expected `]`") {
                        Res::Done(_, e3) => if crate::text::str_eq(name.as_str(), "Tuple") {
                            Res::Done(BuType::Tuple(ts), e3)
                        } else {
                            Res::Done(BuType::Named(slice_string(s, j, e3)), e3)
                        },
                        Res::Fail(p, m) => Res::Fail(p, m),
                        Res::Abort(m) => Res::Abort(m),
                    },
                    Res::Fail(p, m) => Res::Fail(p, m),
                    Res::Abort(m) => Res::Abort(m),
                }
            }
        } else {
            Res::Done(BuType::Named(name), e)
        }
    } else {
        Res::Fail(j, "expected type")
    }
}

fn p_ty_list(s: &Vec<char>, i: usize, close: char) -> (r: Res<Vec<BuType>>)
    requires i <= s.len(),
    ensures
        holds(r, ty_list(s@, i as int, Seq::empty(), close), |v: Vec<BuType>| tys_model(v@)),
        bounded(r, i as int, s.len() as int),
    decreases s.len() - i, 1int,
{
    let mut out: Vec<BuType> = Vec::new();
    let mut pos = i;
    assert(tys_model(out@) =~= Seq::<TyModel>::empty());
    loop
        invariant
            i <= pos <= s.len(),
            ty_list(s@, pos as int, tys_model(out@), close) == ty_list(s@, i as int, Seq::empty(), close),
            out.len() == 0 ==> pos == i,
            tys_model(out@).len() == out.len(),
        decreases s.len() - pos,
    {
        let j = skip_layout(s, pos);
        if out.len() == 0 && is_at(s, j, close) {
            return Res::Done(out, pos);
        }
        match p_ty(s, pos) {
            Res::Done(t, e) => {
                let k = skip_layout(s, e);
                proof { lemma_tys_push(out@, t); }
                out.push(t);
                if is_at(s, k, ',') && k + 1 > pos {
                    pos = k + 1;
                } else {
                    return Res::Done(out, e);
                }
            },
            Res::Fail(p, m) => {
                return Res::Fail(p, m);
            },
            Res::Abort(m) => {
                return Res::Abort(m);
            },
        }
    }
}


// ── Expressions ──────────────────────────────────────────────────────────────

fn is_int_start(s: &Vec<char>, j: usize) -> (r: bool)
    ensures r == int_start(s@, j as int),
{
    (j < s.len() && digit(s[j])) || (is_at(s, j, '-') && j + 1 < s.len() && digit(s[j + 1]))
}

fn p_call_arg(s: &Vec<char>, i: usize) -> (r: Res<CallArg>)
    requires i <= s.len(),
    ensures
        holds(r, call_arg(s@, i as int), |a: CallArg| arg_m(a)),
        bounded(r, i as int, s.len() as int),
{
    let j = skip_layout(s, i);
    if is_at(s, j, '&') {
        match p_ident(s, j + 1) {
            Res::Done(n, e) => Res::Done(CallArg::BulletRef(n), e),
            Res::Fail(p, m) => Res::Fail(p, m),
            Res::Abort(m) => Res::Abort(m),
        }
    } else if is_int_start(s, j) {
        let e = if is_at(s, j, '-') { run_digits(s, j + 1) } else { run_digits(s, j) };
        Res::Done(CallArg::Value(slice_string(s, j, e)), e)
    } else if j < s.len() && ident_start(s[j]) {
        let e = run_ident(s, j + 1);
        Res::Done(CallArg::Value(slice_string(s, j, e)), e)
    } else {
        Res::Fail(j, "expected argument")
    }
}

fn p_call_args(s: &Vec<char>, i: usize) -> (r: Res<Vec<CallArg>>)
    requires i <= s.len(),
    ensures
        holds(r, call_args(s@, i as int, Seq::empty()), |v: Vec<CallArg>| args_m(v@)),
        bounded(r, i as int, s.len() as int),
{
    let mut out: Vec<CallArg> = Vec::new();
    let mut pos = i;
    assert(args_m(out@) =~= Seq::<ArgM>::empty());
    loop
        invariant
            i <= pos <= s.len(),
            call_args(s@, pos as int, args_m(out@)) == call_args(s@, i as int, Seq::empty()),
            args_m(out@).len() == out.len(),
        decreases s.len() - pos,
    {
        let j = skip_layout(s, pos);
        if out.len() == 0 && is_at(s, j, ')') {
            return Res::Done(out, j + 1);
        }
        match p_call_arg(s, pos) {
            Res::Done(a, e) => {
                let k = skip_layout(s, e);
                let ghost before = out@;
                out.push(a);
                assert(args_m(out@) =~= args_m(before).push(arg_m(a)));
                if is_at(s, k, ',') && k + 1 > pos {
                    pos = k + 1;
                } else if is_at(s, k, ')') {
                    return Res::Done(out, k + 1);
                } else {
                    return Res::Fail(k, "expected `,` or `)`");
                }
            },
            Res::Fail(p, m) => {
                return Res::Fail(p, m);
            },
            Res::Abort(m) => {
                return Res::Abort(m);
            },
        }
    }
}

fn find_quote_end(s: &Vec<char>, k: usize) -> (r: usize)
    requires k <= s.len(),
    ensures r == quote_end(s@, k as int), k <= r <= s.len(),
{
    let mut q = k;
    while q < s.len() && s[q] != '"' && s[q] != '\n'
        invariant
            k <= q <= s.len(),
            quote_end(s@, q as int) == quote_end(s@, k as int),
        decreases s.len() - q,
    {
        q = q + 1;
    }
    q
}

fn range_has_brace(s: &Vec<char>, from: usize, to: usize) -> (r: bool)
    requires from <= to <= s.len(),
    ensures r == s@.subrange(from as int, to as int).contains('{'),
{
    let ghost c = s@.subrange(from as int, to as int);
    let mut k = from;
    while k < to
        invariant
            from <= k <= to <= s.len(),
            c == s@.subrange(from as int, to as int),
            forall|t: int| from <= t < k ==> s@[t] != '{',
        decreases to - k,
    {
        if s[k] == '{' {
            assert(c[k - from] == '{');
            return true;
        }
        k = k + 1;
    }
    assert forall|t: int| 0 <= t < c.len() implies c[t] != '{' by {
        assert(c[t] == s@[from + t]);
    }
    false
}

fn p_atom(s: &Vec<char>, i: usize) -> (r: Res<Atom>)
    requires i <= s.len(),
    ensures
        holds(r, atom(s@, i as int), |a: Atom| atom_m(a)),
        bounded(r, i as int, s.len() as int),
{
    let j = skip_layout(s, i);
    if is_at(s, j, '"') {
        let q = find_quote_end(s, j + 1);
        if is_at(s, q, '"') {
            let content = slice_string(s, j + 1, q);
            if range_has_brace(s, j + 1, q) {
                Res::Done(Atom::Interp(content), q + 1)
            } else {
                Res::Done(Atom::StringLit(content), q + 1)
            }
        } else {
            Res::Fail(q, "expected `\"`")
        }
    } else if is_int_start(s, j) {
        if is_at(s, j, '-') {
            let e = run_digits(s, j + 1);
            let v = digits_capped(s, j + 1, e);
            if v > 0x8000_0000_0000_0000 {
                Res::Abort("integer literal out of range")
            } else if v == 0x8000_0000_0000_0000 {
                Res::Done(Atom::Integer(i64::MIN), e)
            } else {
                Res::Done(Atom::Integer(-(v as i64)), e)
            }
        } else {
            let e = run_digits(s, j);
            let v = digits_capped(s, j, e);
            if v > 0x7fff_ffff_ffff_ffff {
                Res::Abort("integer literal out of range")
            } else {
                Res::Done(Atom::Integer(v as i64), e)
            }
        }
    } else if j < s.len() && ident_start(s[j]) {
        let e = run_ident(s, j + 1);
        let name = slice_string(s, j, e);
        let k = skip_layout(s, e);
        if is_at(s, k, '(') {
            match p_call_args(s, k + 1) {
                Res::Done(args, e2) => Res::Done(Atom::Call { name, args }, e2),
                Res::Fail(p, m) => Res::Fail(p, m),
                Res::Abort(m) => Res::Abort(m),
            }
        } else {
            Res::Done(Atom::Ident(name), e)
        }
    } else {
        Res::Fail(j, "expected expression")
    }
}

fn operator_len(s: &Vec<char>, j: usize) -> (r: usize)
    ensures r == op_len(s@, j as int), r <= 2,
{
    if j >= s.len() {
        return 0;
    }
    if (is_at(s, j, '=') || is_at(s, j, '!') || is_at(s, j, '<') || is_at(s, j, '>')) && is_at(s, j + 1, '=') {
        2
    } else if (is_at(s, j, '&') && is_at(s, j + 1, '&')) || (is_at(s, j, '|') && is_at(s, j + 1, '|')) {
        2
    } else if is_at(s, j, '+') || is_at(s, j, '*') || is_at(s, j, '/') || is_at(s, j, '%') || is_at(s, j, '<')
        || is_at(s, j, '>') {
        1
    } else if is_at(s, j, '-') && !is_at(s, j + 1, '>') {
        1
    } else {
        0
    }
}

fn p_expr(s: &Vec<char>, i: usize) -> (r: Res<Expr>)
    requires i <= s.len(),
    ensures
        holds(r, expr(s@, i as int), |x: Expr| expr_m(x)),
        bounded(r, i as int, s.len() as int),
{
    match p_atom(s, i) {
        Res::Done(lhs, e) => {
            let k = skip_layout(s, e);
            let n = operator_len(s, k);
            if n > 0 {
                match p_atom(s, k + n) {
                    Res::Done(rhs, e2) => {
                        let op = slice_string(s, k, k + n);
                        Res::Done(Expr::BinOp(BinExpr { lhs, op, rhs }), e2)
                    },
                    Res::Fail(p, m) => Res::Fail(p, m),
                    Res::Abort(m) => Res::Abort(m),
                }
            } else {
                Res::Done(Expr::Atom(lhs), e)
            }
        },
        Res::Fail(p, m) => Res::Fail(p, m),
        Res::Abort(m) => Res::Abort(m),
    }
}

proof fn lemma_exprs_push(v: Seq<Expr>, x: Expr)
    ensures exprs_m(v.push(x)) == exprs_m(v).push(expr_m(x)),
{
    assert(v.push(x).drop_last() =~= v);
}

fn p_expr_list(s: &Vec<char>, i: usize) -> (r: Res<Vec<Expr>>)
    requires i <= s.len(),
    ensures
        holds(r, expr_list(s@, i as int, Seq::empty()), |v: Vec<Expr>| exprs_m(v@)),
        bounded(r, i as int, s.len() as int),
{
    let mut out: Vec<Expr> = Vec::new();
    let mut pos = i;
    assert(exprs_m(out@) =~= Seq::<ExprM>::empty());
    loop
        invariant
            i <= pos <= s.len(),
            expr_list(s@, pos as int, exprs_m(out@)) == expr_list(s@, i as int, Seq::empty()),
        decreases s.len() - pos,
    {
        match p_expr(s, pos) {
            Res::Done(x, e) => {
                let k = skip_layout(s, e);
                proof { lemma_exprs_push(out@, x); }
                out.push(x);
                if is_at(s, k, ',') && k + 1 > pos {
                    pos = k + 1;
                } else if is_at(s, k, ')') {
                    return Res::Done(out, k + 1);
                } else {
                    return Res::Fail(k, "expected `,` or `)`");
                }
            },
            Res::Fail(p, m) => {
                return Res::Fail(p, m);
            },
            Res::Abort(m) => {
                return Res::Abort(m);
            },
        }
    }
}

fn p_pipe_val(s: &Vec<char>, i: usize) -> (r: Res<Expr>)
    requires i <= s.len(),
    ensures
        holds(r, pipe_val(s@, i as int), |x: Expr| expr_m(x)),
        bounded(r, i as int, s.len() as int),
{
    let j = skip_layout(s, i);
    if is_at(s, j, '(') {
        match p_expr_list(s, j + 1) {
            Res::Done(xs, e) => Res::Done(Expr::Tuple(xs), e),
            Res::Fail(p, m) => Res::Fail(p, m),
            Res::Abort(m) => Res::Abort(m),
        }
    } else {
        p_expr(s, i)
    }
}


// ── Positions ────────────────────────────────────────────────────────────────

/// The 1-based line and column of `pos` (as `pest::Position::line_col`
/// counts them: `\r\n` and `\n` end a line; columns count characters).
pub fn position_line_col(s: &Vec<char>, pos: usize) -> (r: (usize, usize))
    requires pos <= s.len() < usize::MAX,
    ensures (r.0 as nat, r.1 as nat) == line_col(s@, pos as int),
{
    let mut k: usize = 0;
    let mut line: usize = 1;
    let mut col: usize = 1;
    while k < pos
        invariant
            k <= pos <= s.len() < usize::MAX,
            line <= k + 1,
            col <= k + 1,
            lc_from(s@, k as int, pos as int, line as nat, col as nat) == line_col(s@, pos as int),
        decreases pos - k,
    {
        if s[k] == '\r' && k + 1 < pos && s[k + 1] == '\n' {
            line = line + 1;
            col = 1;
            k = k + 2;
        } else if s[k] == '\n' {
            line = line + 1;
            col = 1;
            k = k + 1;
        } else {
            col = col + 1;
            k = k + 1;
        }
    }
    (line, col)
}

// ── Pipes and bodies ─────────────────────────────────────────────────────────

fn p_name_list(s: &Vec<char>, i: usize) -> (r: Res<Vec<String>>)
    requires i <= s.len(),
    ensures
        holds(r, name_list(s@, i as int, Seq::empty()), |v: Vec<String>| strs_m(v@)),
        bounded(r, i as int, s.len() as int),
{
    let mut out: Vec<String> = Vec::new();
    let mut pos = i;
    assert(strs_m(out@) =~= Seq::<Seq<char>>::empty());
    loop
        invariant
            i <= pos <= s.len(),
            name_list(s@, pos as int, strs_m(out@)) == name_list(s@, i as int, Seq::empty()),
            strs_m(out@).len() == out.len(),
        decreases s.len() - pos,
    {
        let j = skip_layout(s, pos);
        if out.len() == 0 && is_at(s, j, ')') {
            return Res::Done(out, j + 1);
        }
        match p_ident(s, pos) {
            Res::Done(n, e) => {
                let k = skip_layout(s, e);
                let ghost before = out@;
                out.push(n);
                assert(strs_m(out@) =~= strs_m(before).push(n@));
                if is_at(s, k, ',') && k + 1 > pos {
                    pos = k + 1;
                } else if is_at(s, k, ')') {
                    return Res::Done(out, k + 1);
                } else {
                    return Res::Fail(k, "expected `,` or `)`");
                }
            },
            Res::Fail(p, m) => {
                return Res::Fail(p, m);
            },
            Res::Abort(m) => {
                return Res::Abort(m);
            },
        }
    }
}

fn p_pipe(s: &Vec<char>, i: usize) -> (r: Res<Pipe>)
    requires i <= s.len() < usize::MAX,
    ensures
        holds(r, pipe(s@, i as int), |x: Pipe| pipe_m(x)),
        bounded(r, i as int, s.len() as int),
{
    let j = skip_layout(s, i);
    let lc = position_line_col(s, j);
    match p_punct(s, j, '(', "expected `(`") {
        Res::Done(_, e1) => match p_name_list(s, e1) {
            Res::Done(inputs, e2) => match p_punct(s, e2, ':', "expected `:`") {
                Res::Done(_, e3) => match p_pipe_val(s, e3) {
                    Res::Done(x, e4) => match p_arrow(s, e4) {
                        Res::Done(_, e5) => match p_punct(s, e5, '{', "expected `{`") {
                            Res::Done(_, e6) => match p_ident(s, e6) {
                                Res::Done(b, e7) => match p_punct(s, e7, '}', "expected `}`") {
                                    Res::Done(_, e8) => match p_punct(s, e8, ';', "expected `;`") {
                                        Res::Done(_, e9) => Res::Done(
                                            Pipe { inputs, expr: x, binding: b, span: Span::new(lc.0, lc.1) },
                                            e9,
                                        ),
                                        Res::Fail(p, m) => Res::Fail(p, m),
                                        Res::Abort(m) => Res::Abort(m),
                                    },
                                    Res::Fail(p, m) => Res::Fail(p, m),
                                    Res::Abort(m) => Res::Abort(m),
                                },
                                Res::Fail(p, m) => Res::Fail(p, m),
                                Res::Abort(m) => Res::Abort(m),
                            },
                            Res::Fail(p, m) => Res::Fail(p, m),
                            Res::Abort(m) => Res::Abort(m),
                        },
                        Res::Fail(p, m) => Res::Fail(p, m),
                        Res::Abort(m) => Res::Abort(m),
                    },
                    Res::Fail(p, m) => Res::Fail(p, m),
                    Res::Abort(m) => Res::Abort(m),
                },
                Res::Fail(p, m) => Res::Fail(p, m),
                Res::Abort(m) => Res::Abort(m),
            },
            Res::Fail(p, m) => Res::Fail(p, m),
            Res::Abort(m) => Res::Abort(m),
        },
        Res::Fail(p, m) => Res::Fail(p, m),
        Res::Abort(m) => Res::Abort(m),
    }
}

fn p_pipes(s: &Vec<char>, i: usize) -> (r: Res<Vec<Pipe>>)
    requires i <= s.len() < usize::MAX,
    ensures
        holds(r, pipes(s@, i as int, Seq::empty()), |v: Vec<Pipe>| pipes_m(v@)),
        bounded(r, i as int, s.len() as int),
{
    let mut out: Vec<Pipe> = Vec::new();
    let mut pos = i;
    assert(pipes_m(out@) =~= Seq::<PipeM>::empty());
    loop
        invariant
            i <= pos <= s.len() < usize::MAX,
            pipes(s@, pos as int, pipes_m(out@)) == pipes(s@, i as int, Seq::empty()),
        decreases s.len() - pos,
    {
        match p_pipe(s, pos) {
            Res::Done(x, e) => {
                let k = skip_layout(s, e);
                let ghost before = out@;
                out.push(x);
                assert(pipes_m(out@) =~= pipes_m(before).push(pipe_m(x)));
                if is_at(s, k, '}') || e <= pos {
                    return Res::Done(out, e);
                }
                pos = e;
            },
            Res::Fail(p, m) => {
                return Res::Fail(p, m);
            },
            Res::Abort(m) => {
                return Res::Abort(m);
            },
        }
    }
}

fn find_end_marker(s: &Vec<char>, i: usize) -> (r: usize)
    requires i <= s.len(),
    ensures
        r as int == end_marker(s@, i as int),
        i <= r <= s.len(),
        r < s.len() ==> r + 4 <= s.len(),
{
    let mut k = i;
    while k < s.len()
        invariant
            i <= k <= s.len(),
            end_marker(s@, k as int) == end_marker(s@, i as int),
        decreases s.len() - k,
    {
        if is_at(s, k, '@') && is_at(s, k + 1, 'e') && is_at(s, k + 2, 'n') && is_at(s, k + 3, 'd') {
            return k;
        }
        k = k + 1;
    }
    s.len()
}

fn keyword_backend(kw: &String) -> (r: Backend)
    ensures backend_m(r) == backend_for_keyword(kw@),
{
    let k = kw.as_str();
    if crate::text::str_eq(k, "rust") {
        Backend::Rust
    } else if crate::text::str_eq(k, "python") {
        Backend::Python
    } else if crate::text::str_eq(k, "c") {
        Backend::C
    } else if crate::text::str_eq(k, "cpp") {
        Backend::Cpp
    } else if crate::text::str_eq(k, "go") {
        Backend::Go
    } else {
        Backend::Unknown(kw.clone())
    }
}

fn p_body(s: &Vec<char>, i: usize) -> (r: Res<BulletBody>)
    requires i <= s.len() < usize::MAX,
    ensures
        holds(r, body(s@, i as int), |b: BulletBody| body_m(b)),
        bounded(r, i as int, s.len() as int),
{
    let j = skip_layout(s, i);
    if is_at(s, j, '@') {
        if j + 1 < s.len() && ident_start(s[j + 1]) {
            let e = run_ident(s, j + 2);
            let kw = slice_string(s, j + 1, e);
            let cs = skip_blank(s, e);
            let k = find_end_marker(s, cs);
            if k < s.len() {
                let code = slice_string(s, cs, k);
                Res::Done(BulletBody::Native { backend: keyword_backend(&kw), code }, k + 4)
            } else {
                Res::Fail(k, "expected `@end`")
            }
        } else {
            Res::Fail(j + 1, "expected backend name")
        }
    } else if j < s.len() && ident_start(s[j]) && {
        let e0 = run_ident(s, j + 1);
        let w = slice_string(s, j, e0);
        crate::text::str_eq(w.as_str(), "builtin")
    } {
        let e = run_ident(s, j + 1);
        let k = skip_layout(s, e);
        if is_at(s, k, ':') && is_at(s, k + 1, ':') {
            match p_ident(s, k + 2) {
                Res::Done(n, e2) => Res::Done(BulletBody::Builtin(n), e2),
                Res::Fail(p, m) => Res::Fail(p, m),
                Res::Abort(m) => Res::Abort(m),
            }
        } else {
            Res::Fail(k, "expected `::`")
        }
    } else {
        match p_pipes(s, i) {
            Res::Done(ps, e) => Res::Done(BulletBody::Pipes(ps), e),
            Res::Fail(p, m) => Res::Fail(p, m),
            Res::Abort(m) => Res::Abort(m),
        }
    }
}


// ── Functions ────────────────────────────────────────────────────────────────

fn p_param(s: &Vec<char>, i: usize) -> (r: Res<Param>)
    requires i <= s.len(),
    ensures
        holds(r, param(s@, i as int), |x: Param| param_m(x)),
        bounded(r, i as int, s.len() as int),
{
    match p_ident(s, i) {
        Res::Done(n, e1) => match p_punct(s, e1, ':', "expected `:`") {
            Res::Done(_, e2) => match p_ty(s, e2) {
                Res::Done(t, e3) => Res::Done(Param { name: n, ty: t }, e3),
                Res::Fail(p, m) => Res::Fail(p, m),
                Res::Abort(m) => Res::Abort(m),
            },
            Res::Fail(p, m) => Res::Fail(p, m),
            Res::Abort(m) => Res::Abort(m),
        },
        Res::Fail(p, m) => Res::Fail(p, m),
        Res::Abort(m) => Res::Abort(m),
    }
}

fn p_param_list(s: &Vec<char>, i: usize) -> (r: Res<Vec<Param>>)
    requires i <= s.len(),
    ensures
        holds(r, param_list(s@, i as int, Seq::empty()), |v: Vec<Param>| params_m(v@)),
        bounded(r, i as int, s.len() as int),
{
    let mut out: Vec<Param> = Vec::new();
    let mut pos = i;
    assert(params_m(out@) =~= Seq::<ParamM>::empty());
    loop
        invariant
            i <= pos <= s.len(),
            param_list(s@, pos as int, params_m(out@)) == param_list(s@, i as int, Seq::empty()),
            params_m(out@).len() == out.len(),
        decreases s.len() - pos,
    {
        let j = skip_layout(s, pos);
        if out.len() == 0 && is_at(s, j, ')') {
            return Res::Done(out, j + 1);
        }
        match p_param(s, pos) {
            Res::Done(x, e) => {
                let k = skip_layout(s, e);
                let ghost before = out@;
                out.push(x);
                assert(params_m(out@) =~= params_m(before).push(param_m(x)));
                if is_at(s, k, ',') && k + 1 > pos {
                    pos = k + 1;
                } else if is_at(s, k, ')') {
                    return Res::Done(out, k + 1);
                } else {
                    return Res::Fail(k, "expected `,` or `)`");
                }
            },
            Res::Fail(p, m) => {
                return Res::Fail(p, m);
            },
            Res::Abort(m) => {
                return Res::Abort(m);
            },
        }
    }
}

fn p_bullet_rest(s: &Vec<char>, i: usize, start: usize, is_test: bool) -> (r: Res<Bullet>)
    requires i <= s.len() < usize::MAX, start <= s.len(),
    ensures
        holds(r, bullet_rest(s@, i as int, start as int, is_test), |x: Bullet| bullet_m(x)),
        bounded(r, i as int, s.len() as int),
{
    let lc = position_line_col(s, start);
    match p_ident(s, i) {
        Res::Done(kw, e0) => if !crate::text::str_eq(kw.as_str(), "let") {
            Res::Fail(skip_layout(s, i), "expected `let`")
        } else {
            match p_ident(s, e0) {
                Res::Done(name, e1) => match p_punct(s, e1, '(', "expected `(`") {
                    Res::Done(_, e2) => match p_param_list(s, e2) {
                        Res::Done(ps, e3) => match p_arrow(s, e3) {
                            Res::Done(_, e4) => match p_param(s, e4) {
                                Res::Done(out, e5) => match p_punct(s, e5, '{', "expected `{`") {
                                    Res::Done(_, e6) => match p_body(s, e6) {
                                        Res::Done(b, e7) => match p_punct(s, e7, '}', "expected `}`") {
                                            Res::Done(_, e8) => Res::Done(
                                                Bullet {
                                                    name,
                                                    params: ps,
                                                    output: OutputDecl { name: out.name, ty: out.ty },
                                                    body: b,
                                                    span: Span::new(lc.0, lc.1),
                                                    is_test,
                                                },
                                                e8,
                                            ),
                                            Res::Fail(p, m) => Res::Fail(p, m),
                                            Res::Abort(m) => Res::Abort(m),
                                        },
                                        Res::Fail(p, m) => Res::Fail(p, m),
                                        Res::Abort(m) => Res::Abort(m),
                                    },
                                    Res::Fail(p, m) => Res::Fail(p, m),
                                    Res::Abort(m) => Res::Abort(m),
                                },
                                Res::Fail(p, m) => Res::Fail(p, m),
                                Res::Abort(m) => Res::Abort(m),
                            },
                            Res::Fail(p, m) => Res::Fail(p, m),
                            Res::Abort(m) => Res::Abort(m),
                        },
                        Res::Fail(p, m) => Res::Fail(p, m),
                        Res::Abort(m) => Res::Abort(m),
                    },
                    Res::Fail(p, m) => Res::Fail(p, m),
                    Res::Abort(m) => Res::Abort(m),
                },
                Res::Fail(p, m) => Res::Fail(p, m),
                Res::Abort(m) => Res::Abort(m),
            }
        },
        Res::Fail(p, m) => Res::Fail(p, m),
        Res::Abort(m) => Res::Abort(m),
    }
}

fn p_bullet(s: &Vec<char>, i: usize) -> (r: Res<Bullet>)
    requires i <= s.len() < usize::MAX,
    ensures
        holds(r, bullet(s@, i as int), |x: Bullet| bullet_m(x)),
        bounded(r, i as int, s.len() as int),
{
    let j = skip_layout(s, i);
    if is_at(s, j, '#') {
        let e = run_ident(s, j + 1);
        let w = slice_string(s, j + 1, e);
        if crate::text::str_eq(w.as_str(), "test") {
            p_bullet_rest(s, e, j, true)
        } else {
            Res::Fail(j + 1, "expected `test`")
        }
    } else {
        p_bullet_rest(s, j, j, false)
    }
}

fn p_source(s: &Vec<char>) -> (r: Res<SourceFile>)
    requires s.len() < usize::MAX,
    ensures
        holds(r, source_file(s@), |f: SourceFile| source_m(f)),
        bounded(r, 0, s.len() as int),
{
    let mut out: Vec<Bullet> = Vec::new();
    let mut pos: usize = 0;
    assert(bullets_m(out@) =~= Seq::<BulletM>::empty());
    loop
        invariant
            pos <= s.len() < usize::MAX,
            bullets(s@, pos as int, bullets_m(out@)) == source_file(s@),
        decreases s.len() - pos,
    {
        let k = skip_layout(s, pos);
        if k >= s.len() {
            return Res::Done(SourceFile { bullets: out }, k);
        }
        match p_bullet(s, pos) {
            Res::Done(b, e) => {
                if e > pos && e <= s.len() {
                    let ghost before = out@;
                    out.push(b);
                    assert(bullets_m(out@) =~= bullets_m(before).push(bullet_m(b)));
                    pos = e;
                } else {
                    return Res::Fail(e, "expected `let`");
                }
            },
            Res::Fail(p, m) => {
                return Res::Fail(p, m);
            },
            Res::Abort(m) => {
                return Res::Abort(m);
            },
        }
    }
}

// ── Inventory files ──────────────────────────────────────────────────────────

/// The exec counterpart of `InvState`.
struct InvBuild {
    rank: Option<Rank>,
    lang: Option<Backend>,
    libs: Vec<String>,
    entries: Vec<InventoryEntry>,
}

spec fn lang_m(l: Option<Backend>) -> Option<BackendM> {
    match l {
        Some(b) => Some(backend_m(b)),
        None => None,
    }
}

spec fn inv_state_m(b: InvBuild) -> InvState {
    InvState { rank: b.rank, lang: lang_m(b.lang), libs: strs_m(b.libs@), entries: entries_m(b.entries@) }
}

fn find_semi(s: &Vec<char>, i: usize) -> (r: usize)
    requires i <= s.len(),
    ensures r == semi_index(s@, i as int), i <= r <= s.len(),
{
    let mut k = i;
    while k < s.len() && s[k] != ';'
        invariant
            i <= k <= s.len(),
            semi_index(s@, k as int) == semi_index(s@, i as int),
        decreases s.len() - k,
    {
        k = k + 1;
    }
    k
}

fn p_directive(s: &Vec<char>, j: usize, st: InvBuild) -> (r: Res<InvBuild>)
    requires j <= s.len(),
    ensures
        holds(r, directive(s@, j as int, inv_state_m(st)), |b: InvBuild| inv_state_m(b)),
        bounded(r, j as int, s.len() as int),
{
    let e = run_ident(s, j);
    if !(j < s.len() && ident_start(s[j])) {
        return Res::Fail(j, "expected directive name");
    }
    let name = slice_string(s, j, e);
    match p_punct(s, e, ':', "expected `:`") {
        Res::Done(_, e1) => if crate::text::str_eq(name.as_str(), "lib") {
            let k = find_semi(s, e1);
            if is_at(s, k, ';') {
                let mut st = st;
                let ghost before = st.libs@;
                let lib = trimmed(s, e1, k);
                st.libs.push(lib);
                assert(strs_m(st.libs@) =~= strs_m(before).push(lib@));
                Res::Done(st, k + 1)
            } else {
                Res::Fail(k, "expected `;`")
            }
        } else if crate::text::str_eq(name.as_str(), "rank") || crate::text::str_eq(name.as_str(), "lang") {
            match p_ident(s, e1) {
                Res::Done(v, e2) => match p_punct(s, e2, ';', "expected `;`") {
                    Res::Done(_, e3) => if crate::text::str_eq(name.as_str(), "rank") {
                        let mut st = st;
                        st.rank = Rank::from_str(v.as_str());
                        Res::Done(st, e3)
                    } else {
                        let mut st = st;
                        st.lang = Backend::from_ext(v.as_str());
                        Res::Done(st, e3)
                    },
                    Res::Fail(p, m) => Res::Fail(p, m),
                    Res::Abort(m) => Res::Abort(m),
                },
                Res::Fail(p, m) => Res::Fail(p, m),
                Res::Abort(m) => Res::Abort(m),
            }
        } else {
            Res::Fail(j, "expected `rank`, `lang` or `lib`")
        },
        Res::Fail(p, m) => Res::Fail(p, m),
        Res::Abort(m) => Res::Abort(m),
    }
}

fn p_fn_names(s: &Vec<char>, i: usize) -> (r: Res<Vec<String>>)
    requires i <= s.len(),
    ensures
        holds(r, fn_names(s@, i as int, Seq::empty()), |v: Vec<String>| strs_m(v@)),
        bounded(r, i as int, s.len() as int),
{
    let mut out: Vec<String> = Vec::new();
    let mut pos = i;
    assert(strs_m(out@) =~= Seq::<Seq<char>>::empty());
    loop
        invariant
            i <= pos <= s.len(),
            fn_names(s@, pos as int, strs_m(out@)) == fn_names(s@, i as int, Seq::empty()),
            strs_m(out@).len() == out.len(),
        decreases s.len() - pos,
    {
        let j = skip_layout(s, pos);
        if out.len() == 0 && is_at(s, j, ';') {
            return Res::Done(out, j + 1);
        }
        match p_ident(s, pos) {
            Res::Done(n, e) => {
                let k = skip_layout(s, e);
                let ghost before = out@;
                out.push(n);
                assert(strs_m(out@) =~= strs_m(before).push(n@));
                if is_at(s, k, ',') && k + 1 > pos {
                    pos = k + 1;
                } else if is_at(s, k, ';') {
                    return Res::Done(out, k + 1);
                } else {
                    return Res::Fail(k, "expected `,` or `;`");
                }
            },
            Res::Fail(p, m) => {
                return Res::Fail(p, m);
            },
            Res::Abort(m) => {
                return Res::Abort(m);
            },
        }
    }
}

fn p_inv_item(s: &Vec<char>, i: usize, st: InvBuild) -> (r: Res<InvBuild>)
    requires i <= s.len(),
    ensures
        holds(r, inv_item(s@, i as int, inv_state_m(st)), |b: InvBuild| inv_state_m(b)),
        bounded(r, i as int, s.len() as int),
{
    let j = skip_layout(s, i);
    if is_at(s, j, '#') {
        p_directive(s, j + 1, st)
    } else {
        match p_ident(s, j) {
            Res::Done(file, e1) => match p_punct(s, e1, ':', "expected `:`") {
                Res::Done(_, e2) => match p_fn_names(s, e2) {
                    Res::Done(fs, e3) => {
                        let mut st = st;
                        let ghost before = st.entries@;
                        let entry = InventoryEntry { file, functions: fs };
                        st.entries.push(entry);
                        assert(entries_m(st.entries@) =~= entries_m(before).push(entry_m(entry)));
                        Res::Done(st, e3)
                    },
                    Res::Fail(p, m) => Res::Fail(p, m),
                    Res::Abort(m) => Res::Abort(m),
                },
                Res::Fail(p, m) => Res::Fail(p, m),
                Res::Abort(m) => Res::Abort(m),
            },
            Res::Fail(p, m) => Res::Fail(p, m),
            Res::Abort(m) => Res::Abort(m),
        }
    }
}

fn p_inventory(s: &Vec<char>) -> (r: Res<InventoryFile>)
    ensures
        holds(r, inventory_file(s@), |f: InventoryFile| inventory_m(f)),
        bounded(r, 0, s.len() as int),
        r matches Res::Done(f, _) ==> f.structs.len() == 0,
{
    let mut st = InvBuild { rank: None, lang: None, libs: Vec::new(), entries: Vec::new() };
    let mut pos: usize = 0;
    assert(strs_m(st.libs@) =~= Seq::<Seq<char>>::empty());
    assert(entries_m(st.entries@) =~= Seq::<EntryM>::empty());
    assert(inv_state_m(st) == empty_inv());
    loop
        invariant
            pos <= s.len(),
            inv_items(s@, pos as int, inv_state_m(st)) == inv_items(s@, 0, empty_inv()),
        decreases s.len() - pos,
    {
        let k = skip_layout(s, pos);
        if k >= s.len() {
            return match st.rank {
                Some(rank) => Res::Done(
                    InventoryFile { rank, lang: st.lang, libs: st.libs, structs: Vec::new(), entries: st.entries },
                    k,
                ),
                None => Res::Abort("inventory.bu is missing #rank"),
            };
        }
        match p_inv_item(s, pos, st) {
            Res::Done(st2, e) => {
                if e > pos && e <= s.len() {
                    st = st2;
                    pos = e;
                } else {
                    return Res::Fail(e, "expected inventory entry");
                }
            },
            Res::Fail(p, m) => {
                return Res::Fail(p, m);
            },
            Res::Abort(m) => {
                return Res::Abort(m);
            },
        }
    }
}


// ── Whole files ──────────────────────────────────────────────────────────────

/// Why a text could not be read as a Bullang file.
#[derive(Debug, Clone)]
pub enum ParseError {
    /// The text breaks the grammar; holds the diagnostic as pest renders it.
    Syntax(String),
    /// The text lies outside what the language defines (an integer literal
    /// out of range, an inventory without a valid `#rank`); a run of the
    /// tool stops here with this message.
    Aborted(String),
}

/// What a whole file reads as, by the grammar.
pub open spec fn file_outcome(s: Seq<char>, is_inventory: bool) -> Outcome<BuFileM> {
    if is_inventory {
        match inventory_file(s) {
            Outcome::Done(i, e) => Outcome::Done(BuFileM::Inventory(i), e),
            Outcome::Fail(p, m) => Outcome::Fail(p, m),
            Outcome::Abort(m) => Outcome::Abort(m),
        }
    } else {
        match source_file(s) {
            Outcome::Done(b, e) => Outcome::Done(BuFileM::Source(b), e),
            Outcome::Fail(p, m) => Outcome::Fail(p, m),
            Outcome::Abort(m) => Outcome::Abort(m),
        }
    }
}

/// The text of the diagnostic that pest renders for a custom message at the
/// character position `pos` of `input`.
pub uninterp spec fn pest_error_text(input: Seq<char>, pos: nat, message: Seq<char>) -> Seq<char>;

/// Renders a syntax error with pest: `pest::error::Error::new_from_pos` with
/// `ErrorVariant::CustomError { message }` at `pest::Position::new(input, b)`,
/// where `b` is the byte offset of character `pos`, then its `Display` text.
/// Trusted: the text is pest's and is only named here (a function of the
/// three arguments); `Position::new` accepts `b` since it is a character
/// boundary or the end of the input.
#[verifier::external_body]
fn render_syntax_error(input: &str, pos: usize, message: &str) -> (r: String)
    requires
        pos <= input@.len(),
    ensures
        r@ == pest_error_text(input@, pos as nat, message@),
{
    let byte = input.char_indices().nth(pos).map(|(b, _)| b).unwrap_or(input.len());
    let at = pest::Position::new(input, byte).unwrap();
    let variant = pest::error::ErrorVariant::<()>::CustomError { message: message.to_string() };
    pest::error::Error::new_from_pos(variant, at).to_string()
}

/// Reads a source file (`is_inventory == false`) or an inventory.bu file.
pub fn parse_file(source: &str, is_inventory: bool) -> (r: Result<BuFile, ParseError>)
    requires
        source@.len() < usize::MAX,
    ensures
        match file_outcome(source@, is_inventory) {
            Outcome::Done(f, _) => r matches Ok(x) && bufile_m(x) == f,
            Outcome::Fail(p, m) => r matches Err(ParseError::Syntax(t))
                && 0 <= p <= source@.len()
                && t@ == pest_error_text(source@, p as nat, m),
            Outcome::Abort(m) => r matches Err(ParseError::Aborted(t)) && t@ == m,
        },
        r matches Ok(BuFile::Inventory(inv)) ==> inv.structs.len() == 0,
{
    let s = chars_of(source);
    if is_inventory {
        match p_inventory(&s) {
            Res::Done(f, _) => Ok(BuFile::Inventory(f)),
            Res::Fail(p, m) => Err(ParseError::Syntax(render_syntax_error(source, p, m))),
            Res::Abort(m) => Err(ParseError::Aborted(crate::text::owned(m))),
        }
    } else {
        match p_source(&s) {
            Res::Done(f, _) => Ok(BuFile::Source(f)),
            Res::Fail(p, m) => Err(ParseError::Syntax(render_syntax_error(source, p, m))),
            Res::Abort(m) => Err(ParseError::Aborted(crate::text::owned(m))),
        }
    }
}

} // verus!
