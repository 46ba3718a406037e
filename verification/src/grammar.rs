//! The Bullang grammar, stated as a deterministic recursive-descent reading
//! of a character sequence. Each rule starts at a position, skips leading
//! whitespace and `//` comments, and yields a value and the position just
//! after its last token, a failure at a position with what was expected
//! there, or an abort (an input that the language does not define: an
//! integer literal out of range, an inventory without a valid `#rank`).

use vstd::prelude::*;
use crate::ast::{Rank, TyModel, rank_for_name};
use crate::model::{ArgM, AtomM, BackendM, BodyM, BulletM, EntryM, ExprM, InventoryM, ParamM, PipeM};
use crate::text::trim;

verus! {

pub enum Outcome<T> {
    Done(T, int),
    Fail(int, Seq<char>),
    Abort(Seq<char>),
}

// ── Characters ───────────────────────────────────────────────────────────────

pub open spec fn is_space(c: char) -> bool {
    c == ' ' || c == '\t' || c == '\r' || c == '\n'
}

pub open spec fn is_alpha(c: char) -> bool {
    ('a' <= c && c <= 'z') || ('A' <= c && c <= 'Z')
}

pub open spec fn is_digit(c: char) -> bool {
    '0' <= c && c <= '9'
}

pub open spec fn is_ident_start(c: char) -> bool {
    is_alpha(c) || c == '_'
}

pub open spec fn is_ident_char(c: char) -> bool {
    is_alpha(c) || is_digit(c) || c == '_'
}

pub open spec fn at(s: Seq<char>, j: int, c: char) -> bool {
    0 <= j < s.len() && s[j] == c
}

// ── Layout ───────────────────────────────────────────────────────────────────

/// Skips whitespace and `//` comments; `in_comment` is set inside a comment.
pub open spec fn skip_from(s: Seq<char>, i: int, in_comment: bool) -> int
    decreases s.len() - i,
{
    if i < 0 || i >= s.len() {
        i
    } else if in_comment {
        skip_from(s, i + 1, s[i] != '\n')
    } else if is_space(s[i]) {
        skip_from(s, i + 1, false)
    } else if s[i] == '/' && at(s, i + 1, '/') {
        skip_from(s, i + 2, true)
    } else {
        i
    }
}

pub open spec fn skip_ws(s: Seq<char>, i: int) -> int {
    skip_from(s, i, false)
}

/// Skips whitespace characters only (comments are kept).
pub open spec fn skip_spaces(s: Seq<char>, i: int) -> int
    decreases s.len() - i,
{
    if 0 <= i < s.len() && is_space(s[i]) { skip_spaces(s, i + 1) } else { i }
}

pub proof fn lemma_skip_from(s: Seq<char>, i: int, c: bool)
    requires
        0 <= i <= s.len(),
    ensures
        i <= skip_from(s, i, c) <= s.len(),
    decreases s.len() - i,
{
    if i < s.len() {
        if c {
            lemma_skip_from(s, i + 1, s[i] != '\n');
        } else if is_space(s[i]) {
            lemma_skip_from(s, i + 1, false);
        } else if s[i] == '/' && at(s, i + 1, '/') {
            lemma_skip_from(s, i + 2, true);
        }
    }
}

pub proof fn lemma_skip_spaces(s: Seq<char>, i: int)
    requires
        0 <= i <= s.len(),
    ensures
        i <= skip_spaces(s, i) <= s.len(),
    decreases s.len() - i,
{
    if i < s.len() && is_space(s[i]) {
        lemma_skip_spaces(s, i + 1);
    }
}

// ── Words ────────────────────────────────────────────────────────────────────

/// End of the run of identifier characters starting at `i`.
pub open spec fn ident_run(s: Seq<char>, i: int) -> int
    decreases s.len() - i,
{
    if 0 <= i < s.len() && is_ident_char(s[i]) { ident_run(s, i + 1) } else { i }
}

/// End of the run of digits starting at `i`.
pub open spec fn digit_run(s: Seq<char>, i: int) -> int
    decreases s.len() - i,
{
    if 0 <= i < s.len() && is_digit(s[i]) { digit_run(s, i + 1) } else { i }
}

pub proof fn lemma_runs(s: Seq<char>, i: int)
    requires
        0 <= i <= s.len(),
    ensures
        i <= ident_run(s, i) <= s.len(),
        i <= digit_run(s, i) <= s.len(),
    decreases s.len() - i,
{
    if i < s.len() {
        lemma_runs(s, i + 1);
    }
}

/// The value of a run of decimal digits.
pub open spec fn digits_value(d: Seq<char>) -> nat
    decreases d.len(),
{
    if d.len() == 0 {
        0
    } else {
        digits_value(d.drop_last()) * 10 + ((d.last() as int - '0' as int) as nat)
    }
}

/// An identifier at `i` (after layout).
pub open spec fn ident(s: Seq<char>, i: int) -> Outcome<Seq<char>> {
    let j = skip_ws(s, i);
    if 0 <= j < s.len() && is_ident_start(s[j]) {
        let e = ident_run(s, j + 1);
        Outcome::Done(s.subrange(j, e), e)
    } else {
        Outcome::Fail(j, "expected identifier"@)
    }
}

/// The punctuation character `c` at `i` (after layout).
pub open spec fn punct(s: Seq<char>, i: int, c: char, msg: Seq<char>) -> Outcome<()> {
    let j = skip_ws(s, i);
    if at(s, j, c) {
        Outcome::Done((), j + 1)
    } else {
        Outcome::Fail(j, msg)
    }
}

/// The arrow `->` at `i` (after layout).
pub open spec fn arrow(s: Seq<char>, i: int) -> Outcome<()> {
    let j = skip_ws(s, i);
    if at(s, j, '-') && at(s, j + 1, '>') {
        Outcome::Done((), j + 2)
    } else {
        Outcome::Fail(j, "expected `->`"@)
    }
}

// ── Types ────────────────────────────────────────────────────────────────────

/// A type at `i`.
pub open spec fn ty(s: Seq<char>, i: int) -> Outcome<TyModel>
    decreases s.len() - i, 0int,
{
    if i < 0 || i > s.len() {
        Outcome::Fail(i, "expected type"@)
    } else {
        let j = skip_ws(s, i);
        proof { lemma_skip_from(s, i, false); }
        if at(s, j, '(') {
            match punct(s, j + 1, ')', "expected `)`"@) {
                Outcome::Done(_, e) => Outcome::Done(TyModel::Named("()"@), e),
                Outcome::Fail(p, m) => Outcome::Fail(p, m),
                Outcome::Abort(m) => Outcome::Abort(m),
            }
        } else if at(s, j, '[') {
            match ty(s, j + 1) {
                Outcome::Done(t, e) => match punct(s, e, ';', "expected `;`"@) {
                    Outcome::Done(_, e2) => {
                        let k = skip_ws(s, e2);
                        if 0 <= k < s.len() && is_digit(s[k]) {
                            let d = digit_run(s, k);
                            let n = digits_value(s.subrange(k, d));
                            if n > usize::MAX {
                                Outcome::Abort("array length out of range"@)
                            } else {
                                match punct(s, d, ']', "expected `]`"@) {
                                    Outcome::Done(_, e3) => Outcome::Done(
                                        TyModel::Array(Box::new(t), n),
                                        e3,
                                    ),
                                    Outcome::Fail(p, m) => Outcome::Fail(p, m),
                                    Outcome::Abort(m) => Outcome::Abort(m),
                                }
                            }
                        } else {
                            Outcome::Fail(k, "expected array length"@)
                        }
                    },
                    Outcome::Fail(p, m) => Outcome::Fail(p, m),
                    Outcome::Abort(m) => Outcome::Abort(m),
                },
                Outcome::Fail(p, m) => Outcome::Fail(p, m),
                Outcome::Abort(m) => Outcome::Abort(m),
            }
        } else if 0 <= j < s.len() && is_ident_start(s[j]) {
            let e = ident_run(s, j + 1);
            let name = s.subrange(j, e);
            let k = skip_ws(s, e);
            proof {
                lemma_runs(s, j + 1);
                lemma_skip_from(s, e, false);
            }
            if at(s, k, '[') {
                if name == "Fn"@ {
                    match ty_list(s, k + 1, Seq::empty(), '-') {
                        Outcome::Done(_, e2) => match arrow(s, e2) {
                            Outcome::Done(_, e3) => if e3 > k {
                                match ty(s, e3) {
                                    Outcome::Done(_, e4) => match punct(s, e4, ']', "expected `]`"@) {
                                        Outcome::Done(_, e5) => Outcome::Done(
                                            TyModel::Named(s.subrange(j, e5)),
                                            e5,
                                        ),
                                        Outcome::Fail(p, m) => Outcome::Fail(p, m),
                                        Outcome::Abort(m) => Outcome::Abort(m),
                                    },
                                    Outcome::Fail(p, m) => Outcome::Fail(p, m),
                                    Outcome::Abort(m) => Outcome::Abort(m),
                                }
                            } else {
                                Outcome::Fail(e3, "expected type"@)
                            },
                            Outcome::Fail(p, m) => Outcome::Fail(p, m),
                            Outcome::Abort(m) => Outcome::Abort(m),
                        },
                        Outcome::Fail(p, m) => Outcome::Fail(p, m),
                        Outcome::Abort(m) => Outcome::Abort(m),
                    }
                } else {
                    match ty_list(s, k + 1, Seq::empty(), ']') {
                        Outcome::Done(ts, e2) => match punct(s, e2, ']', "expected `]`"@) {
                            Outcome::Done(_, e3) => if name == "Tuple"@ {
                                Outcome::Done(TyModel::Tuple(ts), e3)
                            } else {
                                Outcome::Done(TyModel::Named(s.subrange(j, e3)), e3)
                            },
                            Outcome::Fail(p, m) => Outcome::Fail(p, m),
                            Outcome::Abort(m) => Outcome::Abort(m),
                        },
                        Outcome::Fail(p, m) => Outcome::Fail(p, m),
                        Outcome::Abort(m) => Outcome::Abort(m),
                    }
                }
            } else {
                Outcome::Done(TyModel::Named(name), e)
            }
        } else {
            Outcome::Fail(j, "expected type"@)
        }
    }
}

/// A comma-separated list of types that ends before the character `close`
/// (the list may be empty when `close` follows at once). `acc` holds the
/// types read so far.
pub open spec fn ty_list(s: Seq<char>, i: int, acc: Seq<TyModel>, close: char) -> Outcome<Seq<TyModel>>
    decreases s.len() - i, 1int,
{
    if i < 0 || i > s.len() {
        Outcome::Fail(i, "expected type"@)
    } else {
        let j = skip_ws(s, i);
        if acc.len() == 0 && at(s, j, close) {
            Outcome::Done(acc, i)
        } else {
            match ty(s, i) {
                Outcome::Done(t, e) => {
                    let k = skip_ws(s, e);
                    if at(s, k, ',') && k + 1 > i {
                        ty_list(s, k + 1, acc.push(t), close)
                    } else {
                        Outcome::Done(acc.push(t), e)
                    }
                },
                Outcome::Fail(p, m) => Outcome::Fail(p, m),
                Outcome::Abort(m) => Outcome::Abort(m),
            }
        }
    }
}


// ── Expressions ──────────────────────────────────────────────────────────────

/// An integer literal starts at `j`: a digit, or `-` followed by a digit.
pub open spec fn int_start(s: Seq<char>, j: int) -> bool {
    (0 <= j < s.len() && is_digit(s[j])) || (at(s, j, '-') && 0 <= j + 1 < s.len() && is_digit(s[j + 1]))
}

/// End of the integer literal that starts at `j`.
pub open spec fn int_end(s: Seq<char>, j: int) -> int {
    if at(s, j, '-') { digit_run(s, j + 1) } else { digit_run(s, j) }
}

/// The value of the integer literal `s[j..e]`.
pub open spec fn int_value(s: Seq<char>, j: int, e: int) -> int {
    if at(s, j, '-') {
        -(digits_value(s.subrange(j + 1, e)) as int)
    } else {
        digits_value(s.subrange(j, e)) as int
    }
}

pub open spec fn fits_i64(n: int) -> bool {
    i64::MIN <= n <= i64::MAX
}

/// First index `q >= k` holding `"` or a line break, or the end.
pub open spec fn quote_end(s: Seq<char>, k: int) -> int
    decreases s.len() - k,
{
    if 0 <= k < s.len() && s[k] != '"' && s[k] != '\n' { quote_end(s, k + 1) } else { k }
}

pub proof fn lemma_quote_end(s: Seq<char>, k: int)
    requires
        0 <= k <= s.len(),
    ensures
        k <= quote_end(s, k) <= s.len(),
        forall|t: int| k <= t < quote_end(s, k) ==> s[t] != '"' && s[t] != '\n',
        quote_end(s, k) < s.len() ==> (s[quote_end(s, k)] == '"' || s[quote_end(s, k)] == '\n'),
    decreases s.len() - k,
{
    if k < s.len() && s[k] != '"' && s[k] != '\n' {
        lemma_quote_end(s, k + 1);
    }
}

/// An argument of a call: `&name`, an integer literal or a name.
pub open spec fn call_arg(s: Seq<char>, i: int) -> Outcome<ArgM> {
    let j = skip_ws(s, i);
    if at(s, j, '&') {
        match ident(s, j + 1) {
            Outcome::Done(n, e) => Outcome::Done(ArgM::Ref(n), e),
            Outcome::Fail(p, m) => Outcome::Fail(p, m),
            Outcome::Abort(m) => Outcome::Abort(m),
        }
    } else if int_start(s, j) {
        let e = int_end(s, j);
        Outcome::Done(ArgM::Value(s.subrange(j, e)), e)
    } else if 0 <= j < s.len() && is_ident_start(s[j]) {
        let e = ident_run(s, j + 1);
        Outcome::Done(ArgM::Value(s.subrange(j, e)), e)
    } else {
        Outcome::Fail(j, "expected argument"@)
    }
}

/// The arguments of a call after its `(`, up to and including `)`.
pub open spec fn call_args(s: Seq<char>, i: int, acc: Seq<ArgM>) -> Outcome<Seq<ArgM>>
    decreases s.len() - i,
{
    if i < 0 || i > s.len() {
        Outcome::Fail(i, "expected argument"@)
    } else {
        let j = skip_ws(s, i);
        if acc.len() == 0 && at(s, j, ')') {
            Outcome::Done(acc, j + 1)
        } else {
            match call_arg(s, i) {
                Outcome::Done(a, e) => {
                    let k = skip_ws(s, e);
                    if at(s, k, ',') && k + 1 > i {
                        call_args(s, k + 1, acc.push(a))
                    } else if at(s, k, ')') {
                        Outcome::Done(acc.push(a), k + 1)
                    } else {
                        Outcome::Fail(k, "expected `,` or `)`"@)
                    }
                },
                Outcome::Fail(p, m) => Outcome::Fail(p, m),
                Outcome::Abort(m) => Outcome::Abort(m),
            }
        }
    }
}

/// A string literal's content yields an interpolation when it holds `{`.
pub open spec fn string_atom(content: Seq<char>) -> AtomM {
    if content.contains('{') { AtomM::Interp(content) } else { AtomM::Str(content) }
}

/// An operand: a string literal, an integer literal, a call or a name.
pub open spec fn atom(s: Seq<char>, i: int) -> Outcome<AtomM> {
    let j = skip_ws(s, i);
    if at(s, j, '"') {
        let q = quote_end(s, j + 1);
        if at(s, q, '"') {
            Outcome::Done(string_atom(s.subrange(j + 1, q)), q + 1)
        } else {
            Outcome::Fail(q, "expected `\"`"@)
        }
    } else if int_start(s, j) {
        let e = int_end(s, j);
        let v = int_value(s, j, e);
        if fits_i64(v) {
            Outcome::Done(AtomM::Integer(v), e)
        } else {
            Outcome::Abort("integer literal out of range"@)
        }
    } else if 0 <= j < s.len() && is_ident_start(s[j]) {
        let e = ident_run(s, j + 1);
        let name = s.subrange(j, e);
        let k = skip_ws(s, e);
        if at(s, k, '(') {
            match call_args(s, k + 1, Seq::empty()) {
                Outcome::Done(args, e2) => Outcome::Done(AtomM::Call(name, args), e2),
                Outcome::Fail(p, m) => Outcome::Fail(p, m),
                Outcome::Abort(m) => Outcome::Abort(m),
            }
        } else {
            Outcome::Done(AtomM::Ident(name), e)
        }
    } else {
        Outcome::Fail(j, "expected expression"@)
    }
}

/// The binary operator at `j`, longest first; `-` is not an operator when
/// it starts `->`. Yields the operator's length.
pub open spec fn op_len(s: Seq<char>, j: int) -> int {
    if (at(s, j, '=') || at(s, j, '!') || at(s, j, '<') || at(s, j, '>')) && at(s, j + 1, '=') {
        2
    } else if (at(s, j, '&') && at(s, j + 1, '&')) || (at(s, j, '|') && at(s, j + 1, '|')) {
        2
    } else if at(s, j, '+') || at(s, j, '*') || at(s, j, '/') || at(s, j, '%') || at(s, j, '<')
        || at(s, j, '>') {
        1
    } else if at(s, j, '-') && !at(s, j + 1, '>') {
        1
    } else {
        0
    }
}

/// An expression: an operand, optionally followed by an operator and a
/// second operand.
pub open spec fn expr(s: Seq<char>, i: int) -> Outcome<ExprM> {
    match atom(s, i) {
        Outcome::Done(lhs, e) => {
            let k = skip_ws(s, e);
            let n = op_len(s, k);
            if n > 0 {
                match atom(s, k + n) {
                    Outcome::Done(rhs, e2) => Outcome::Done(
                        ExprM::Bin(lhs, s.subrange(k, k + n), rhs),
                        e2,
                    ),
                    Outcome::Fail(p, m) => Outcome::Fail(p, m),
                    Outcome::Abort(m) => Outcome::Abort(m),
                }
            } else {
                Outcome::Done(ExprM::Atom(lhs), e)
            }
        },
        Outcome::Fail(p, m) => Outcome::Fail(p, m),
        Outcome::Abort(m) => Outcome::Abort(m),
    }
}

/// The expressions of a tuple after its `(`, up to and including `)`.
pub open spec fn expr_list(s: Seq<char>, i: int, acc: Seq<ExprM>) -> Outcome<Seq<ExprM>>
    decreases s.len() - i,
{
    if i < 0 || i > s.len() {
        Outcome::Fail(i, "expected expression"@)
    } else {
        match expr(s, i) {
            Outcome::Done(x, e) => {
                let k = skip_ws(s, e);
                if at(s, k, ',') && k + 1 > i {
                    expr_list(s, k + 1, acc.push(x))
                } else if at(s, k, ')') {
                    Outcome::Done(acc.push(x), k + 1)
                } else {
                    Outcome::Fail(k, "expected `,` or `)`"@)
                }
            },
            Outcome::Fail(p, m) => Outcome::Fail(p, m),
            Outcome::Abort(m) => Outcome::Abort(m),
        }
    }
}

/// The value part of a pipe: a parenthesised tuple of expressions or one expression.
pub open spec fn pipe_val(s: Seq<char>, i: int) -> Outcome<ExprM> {
    let j = skip_ws(s, i);
    if at(s, j, '(') {
        match expr_list(s, j + 1, Seq::empty()) {
            Outcome::Done(xs, e) => Outcome::Done(ExprM::Tuple(xs), e),
            Outcome::Fail(p, m) => Outcome::Fail(p, m),
            Outcome::Abort(m) => Outcome::Abort(m),
        }
    } else {
        expr(s, i)
    }
}

// ── Positions ────────────────────────────────────────────────────────────────

/// Line and column reached after reading `s[k..end]` from (`line`, `col`);
/// `\r\n` and `\n` end a line.
pub open spec fn lc_from(s: Seq<char>, k: int, end: int, line: nat, col: nat) -> (nat, nat)
    decreases end - k,
{
    if k >= end {
        (line, col)
    } else if s[k] == '\r' && k + 1 < end && s[k + 1] == '\n' {
        lc_from(s, k + 2, end, line + 1, 1)
    } else if s[k] == '\n' {
        lc_from(s, k + 1, end, line + 1, 1)
    } else {
        lc_from(s, k + 1, end, line, col + 1)
    }
}

/// The 1-based line and column of position `pos`.
pub open spec fn line_col(s: Seq<char>, pos: int) -> (nat, nat) {
    lc_from(s, 0, pos, 1, 1)
}

// ── Pipes and bodies ─────────────────────────────────────────────────────────

/// A parenthesised, comma-separated list of names after its `(`, up to and
/// including `)`.
pub open spec fn name_list(s: Seq<char>, i: int, acc: Seq<Seq<char>>) -> Outcome<Seq<Seq<char>>>
    decreases s.len() - i,
{
    if i < 0 || i > s.len() {
        Outcome::Fail(i, "expected identifier"@)
    } else {
        let j = skip_ws(s, i);
        if acc.len() == 0 && at(s, j, ')') {
            Outcome::Done(acc, j + 1)
        } else {
            match ident(s, i) {
                Outcome::Done(n, e) => {
                    let k = skip_ws(s, e);
                    if at(s, k, ',') && k + 1 > i {
                        name_list(s, k + 1, acc.push(n))
                    } else if at(s, k, ')') {
                        Outcome::Done(acc.push(n), k + 1)
                    } else {
                        Outcome::Fail(k, "expected `,` or `)`"@)
                    }
                },
                Outcome::Fail(p, m) => Outcome::Fail(p, m),
                Outcome::Abort(m) => Outcome::Abort(m),
            }
        }
    }
}

/// A pipe: `(inputs) : value -> {binding};`
pub open spec fn pipe(s: Seq<char>, i: int) -> Outcome<PipeM> {
    let j = skip_ws(s, i);
    let lc = line_col(s, j);
    match punct(s, j, '(', "expected `(`"@) {
        Outcome::Done(_, e1) => match name_list(s, e1, Seq::empty()) {
            Outcome::Done(inputs, e2) => match punct(s, e2, ':', "expected `:`"@) {
                Outcome::Done(_, e3) => match pipe_val(s, e3) {
                    Outcome::Done(x, e4) => match arrow(s, e4) {
                        Outcome::Done(_, e5) => match punct(s, e5, '{', "expected `{`"@) {
                            Outcome::Done(_, e6) => match ident(s, e6) {
                                Outcome::Done(b, e7) => match punct(s, e7, '}', "expected `}`"@) {
                                    Outcome::Done(_, e8) => match punct(s, e8, ';', "expected `;`"@) {
                                        Outcome::Done(_, e9) => Outcome::Done(
                                            PipeM { inputs, expr: x, binding: b, line: lc.0, col: lc.1 },
                                            e9,
                                        ),
                                        Outcome::Fail(p, m) => Outcome::Fail(p, m),
                                        Outcome::Abort(m) => Outcome::Abort(m),
                                    },
                                    Outcome::Fail(p, m) => Outcome::Fail(p, m),
                                    Outcome::Abort(m) => Outcome::Abort(m),
                                },
                                Outcome::Fail(p, m) => Outcome::Fail(p, m),
                                Outcome::Abort(m) => Outcome::Abort(m),
                            },
                            Outcome::Fail(p, m) => Outcome::Fail(p, m),
                            Outcome::Abort(m) => Outcome::Abort(m),
                        },
                        Outcome::Fail(p, m) => Outcome::Fail(p, m),
                        Outcome::Abort(m) => Outcome::Abort(m),
                    },
                    Outcome::Fail(p, m) => Outcome::Fail(p, m),
                    Outcome::Abort(m) => Outcome::Abort(m),
                },
                Outcome::Fail(p, m) => Outcome::Fail(p, m),
                Outcome::Abort(m) => Outcome::Abort(m),
            },
            Outcome::Fail(p, m) => Outcome::Fail(p, m),
            Outcome::Abort(m) => Outcome::Abort(m),
        },
        Outcome::Fail(p, m) => Outcome::Fail(p, m),
        Outcome::Abort(m) => Outcome::Abort(m),
    }
}

/// One or more pipes, up to (not including) the `}` that closes the body.
pub open spec fn pipes(s: Seq<char>, i: int, acc: Seq<PipeM>) -> Outcome<Seq<PipeM>>
    decreases s.len() - i,
{
    if i < 0 || i > s.len() {
        Outcome::Fail(i, "expected `(`"@)
    } else {
        match pipe(s, i) {
            Outcome::Done(p, e) => {
                let k = skip_ws(s, e);
                if at(s, k, '}') || e <= i {
                    Outcome::Done(acc.push(p), e)
                } else {
                    pipes(s, e, acc.push(p))
                }
            },
            Outcome::Fail(p, m) => Outcome::Fail(p, m),
            Outcome::Abort(m) => Outcome::Abort(m),
        }
    }
}

/// First index `k >= i` at which `@end` starts, or `s.len()` when none does.
pub open spec fn end_marker(s: Seq<char>, i: int) -> int
    decreases s.len() - i,
{
    if i < 0 || i >= s.len() {
        s.len() as int
    } else if at(s, i, '@') && at(s, i + 1, 'e') && at(s, i + 2, 'n') && at(s, i + 3, 'd') {
        i
    } else {
        end_marker(s, i + 1)
    }
}

/// The backend that an escape keyword names.
pub open spec fn backend_for_keyword(kw: Seq<char>) -> BackendM {
    if kw == "rust"@ {
        BackendM::Rust
    } else if kw == "python"@ {
        BackendM::Python
    } else if kw == "c"@ {
        BackendM::C
    } else if kw == "cpp"@ {
        BackendM::Cpp
    } else if kw == "go"@ {
        BackendM::Go
    } else {
        BackendM::Unknown(kw)
    }
}

/// A function body: `@keyword code @end`, `builtin::name`, or pipes.
pub open spec fn body(s: Seq<char>, i: int) -> Outcome<BodyM> {
    let j = skip_ws(s, i);
    if at(s, j, '@') {
        if 0 <= j + 1 < s.len() && is_ident_start(s[j + 1]) {
            let e = ident_run(s, j + 2);
            let kw = s.subrange(j + 1, e);
            let cs = skip_spaces(s, e);
            let k = end_marker(s, cs);
            if k < s.len() {
                Outcome::Done(BodyM::Native(backend_for_keyword(kw), s.subrange(cs, k)), k + 4)
            } else {
                Outcome::Fail(k, "expected `@end`"@)
            }
        } else {
            Outcome::Fail(j + 1, "expected backend name"@)
        }
    } else if 0 <= j < s.len() && is_ident_start(s[j]) && s.subrange(j, ident_run(s, j + 1)) == "builtin"@ {
        let e = ident_run(s, j + 1);
        let k = skip_ws(s, e);
        if at(s, k, ':') && at(s, k + 1, ':') {
            match ident(s, k + 2) {
                Outcome::Done(n, e2) => Outcome::Done(BodyM::Builtin(n), e2),
                Outcome::Fail(p, m) => Outcome::Fail(p, m),
                Outcome::Abort(m) => Outcome::Abort(m),
            }
        } else {
            Outcome::Fail(k, "expected `::`"@)
        }
    } else {
        match pipes(s, i, Seq::empty()) {
            Outcome::Done(ps, e) => Outcome::Done(BodyM::Pipes(ps), e),
            Outcome::Fail(p, m) => Outcome::Fail(p, m),
            Outcome::Abort(m) => Outcome::Abort(m),
        }
    }
}

// ── Functions ────────────────────────────────────────────────────────────────

/// `name: type`
pub open spec fn param(s: Seq<char>, i: int) -> Outcome<ParamM> {
    match ident(s, i) {
        Outcome::Done(n, e1) => match punct(s, e1, ':', "expected `:`"@) {
            Outcome::Done(_, e2) => match ty(s, e2) {
                Outcome::Done(t, e3) => Outcome::Done(ParamM { name: n, ty: t }, e3),
                Outcome::Fail(p, m) => Outcome::Fail(p, m),
                Outcome::Abort(m) => Outcome::Abort(m),
            },
            Outcome::Fail(p, m) => Outcome::Fail(p, m),
            Outcome::Abort(m) => Outcome::Abort(m),
        },
        Outcome::Fail(p, m) => Outcome::Fail(p, m),
        Outcome::Abort(m) => Outcome::Abort(m),
    }
}

/// The parameters after `(`, up to and including `)`.
pub open spec fn param_list(s: Seq<char>, i: int, acc: Seq<ParamM>) -> Outcome<Seq<ParamM>>
    decreases s.len() - i,
{
    if i < 0 || i > s.len() {
        Outcome::Fail(i, "expected identifier"@)
    } else {
        let j = skip_ws(s, i);
        if acc.len() == 0 && at(s, j, ')') {
            Outcome::Done(acc, j + 1)
        } else {
            match param(s, i) {
                Outcome::Done(x, e) => {
                    let k = skip_ws(s, e);
                    if at(s, k, ',') && k + 1 > i {
                        param_list(s, k + 1, acc.push(x))
                    } else if at(s, k, ')') {
                        Outcome::Done(acc.push(x), k + 1)
                    } else {
                        Outcome::Fail(k, "expected `,` or `)`"@)
                    }
                },
                Outcome::Fail(p, m) => Outcome::Fail(p, m),
                Outcome::Abort(m) => Outcome::Abort(m),
            }
        }
    }
}

/// The part of a function after its `#test` mark (if any): from `let` to `}`.
pub open spec fn bullet_rest(s: Seq<char>, i: int, start: int, is_test: bool) -> Outcome<BulletM> {
    let lc = line_col(s, start);
    match ident(s, i) {
        Outcome::Done(kw, e0) => if kw != "let"@ {
            Outcome::Fail(skip_ws(s, i), "expected `let`"@)
        } else {
            match ident(s, e0) {
                Outcome::Done(name, e1) => match punct(s, e1, '(', "expected `(`"@) {
                    Outcome::Done(_, e2) => match param_list(s, e2, Seq::empty()) {
                        Outcome::Done(ps, e3) => match arrow(s, e3) {
                            Outcome::Done(_, e4) => match param(s, e4) {
                                Outcome::Done(out, e5) => match punct(s, e5, '{', "expected `{`"@) {
                                    Outcome::Done(_, e6) => match body(s, e6) {
                                        Outcome::Done(b, e7) => match punct(s, e7, '}', "expected `}`"@) {
                                            Outcome::Done(_, e8) => Outcome::Done(
                                                BulletM {
                                                    name,
                                                    params: ps,
                                                    out_name: out.name,
                                                    out_ty: out.ty,
                                                    body: b,
                                                    line: lc.0,
                                                    col: lc.1,
                                                    is_test,
                                                },
                                                e8,
                                            ),
                                            Outcome::Fail(p, m) => Outcome::Fail(p, m),
                                            Outcome::Abort(m) => Outcome::Abort(m),
                                        },
                                        Outcome::Fail(p, m) => Outcome::Fail(p, m),
                                        Outcome::Abort(m) => Outcome::Abort(m),
                                    },
                                    Outcome::Fail(p, m) => Outcome::Fail(p, m),
                                    Outcome::Abort(m) => Outcome::Abort(m),
                                },
                                Outcome::Fail(p, m) => Outcome::Fail(p, m),
                                Outcome::Abort(m) => Outcome::Abort(m),
                            },
                            Outcome::Fail(p, m) => Outcome::Fail(p, m),
                            Outcome::Abort(m) => Outcome::Abort(m),
                        },
                        Outcome::Fail(p, m) => Outcome::Fail(p, m),
                        Outcome::Abort(m) => Outcome::Abort(m),
                    },
                    Outcome::Fail(p, m) => Outcome::Fail(p, m),
                    Outcome::Abort(m) => Outcome::Abort(m),
                },
                Outcome::Fail(p, m) => Outcome::Fail(p, m),
                Outcome::Abort(m) => Outcome::Abort(m),
            }
        },
        Outcome::Fail(p, m) => Outcome::Fail(p, m),
        Outcome::Abort(m) => Outcome::Abort(m),
    }
}

/// A function declaration, optionally marked `#test`.
pub open spec fn bullet(s: Seq<char>, i: int) -> Outcome<BulletM> {
    let j = skip_ws(s, i);
    if at(s, j, '#') {
        let e = ident_run(s, j + 1);
        if s.subrange(j + 1, e) == "test"@ {
            bullet_rest(s, e, j, true)
        } else {
            Outcome::Fail(j + 1, "expected `test`"@)
        }
    } else {
        bullet_rest(s, j, j, false)
    }
}

/// The functions of a source file from `i` to the end.
pub open spec fn bullets(s: Seq<char>, i: int, acc: Seq<BulletM>) -> Outcome<Seq<BulletM>>
    decreases s.len() - i,
{
    if i < 0 || i > s.len() {
        Outcome::Fail(i, "expected `let`"@)
    } else {
        let k = skip_ws(s, i);
        if k >= s.len() {
            Outcome::Done(acc, k)
        } else {
            match bullet(s, i) {
                Outcome::Done(b, e) => if i < e <= s.len() {
                    bullets(s, e, acc.push(b))
                } else {
                    Outcome::Fail(e, "expected `let`"@)
                },
                Outcome::Fail(p, m) => Outcome::Fail(p, m),
                Outcome::Abort(m) => Outcome::Abort(m),
            }
        }
    }
}

/// A whole source file.
pub open spec fn source_file(s: Seq<char>) -> Outcome<Seq<BulletM>> {
    bullets(s, 0, Seq::empty())
}

// ── Inventory files ──────────────────────────────────────────────────────────

/// What the directives and entries read so far have set.
pub struct InvState {
    pub rank: Option<Rank>,
    pub lang: Option<BackendM>,
    pub libs: Seq<Seq<char>>,
    pub entries: Seq<EntryM>,
}

/// The backend that `#lang: ext;` selects.
pub open spec fn lang_for_ext(e: Seq<char>) -> Option<BackendM> {
    if e == "rs"@ {
        Some(BackendM::Rust)
    } else if e == "py"@ {
        Some(BackendM::Python)
    } else if e == "c"@ {
        Some(BackendM::C)
    } else if e == "cpp"@ || e == "cc"@ || e == "cxx"@ {
        Some(BackendM::Cpp)
    } else if e == "go"@ {
        Some(BackendM::Go)
    } else {
        None
    }
}

/// First index `k >= i` holding `;`, or `s.len()`.
pub open spec fn semi_index(s: Seq<char>, i: int) -> int
    decreases s.len() - i,
{
    if 0 <= i < s.len() && s[i] != ';' { semi_index(s, i + 1) } else { i }
}

/// A directive after its `#`: `rank: name;`, `lang: ext;` or `lib: header;`.
pub open spec fn directive(s: Seq<char>, j: int, st: InvState) -> Outcome<InvState> {
    let e = ident_run(s, j);
    let name = s.subrange(j, e);
    if !(0 <= j < s.len() && is_ident_start(s[j])) {
        Outcome::Fail(j, "expected directive name"@)
    } else {
        match punct(s, e, ':', "expected `:`"@) {
            Outcome::Done(_, e1) => if name == "lib"@ {
                let k = semi_index(s, e1);
                if at(s, k, ';') {
                    Outcome::Done(
                        InvState { libs: st.libs.push(trim(s.subrange(e1, k))), ..st },
                        k + 1,
                    )
                } else {
                    Outcome::Fail(k, "expected `;`"@)
                }
            } else if name == "rank"@ || name == "lang"@ {
                match ident(s, e1) {
                    Outcome::Done(v, e2) => match punct(s, e2, ';', "expected `;`"@) {
                        Outcome::Done(_, e3) => if name == "rank"@ {
                            Outcome::Done(InvState { rank: rank_for_name(v), ..st }, e3)
                        } else {
                            Outcome::Done(InvState { lang: lang_for_ext(v), ..st }, e3)
                        },
                        Outcome::Fail(p, m) => Outcome::Fail(p, m),
                        Outcome::Abort(m) => Outcome::Abort(m),
                    },
                    Outcome::Fail(p, m) => Outcome::Fail(p, m),
                    Outcome::Abort(m) => Outcome::Abort(m),
                }
            } else {
                Outcome::Fail(j, "expected `rank`, `lang` or `lib`"@)
            },
            Outcome::Fail(p, m) => Outcome::Fail(p, m),
            Outcome::Abort(m) => Outcome::Abort(m),
        }
    }
}

/// The names listed after `file:`, up to and including `;` (possibly none).
pub open spec fn fn_names(s: Seq<char>, i: int, acc: Seq<Seq<char>>) -> Outcome<Seq<Seq<char>>>
    decreases s.len() - i,
{
    if i < 0 || i > s.len() {
        Outcome::Fail(i, "expected identifier"@)
    } else {
        let j = skip_ws(s, i);
        if acc.len() == 0 && at(s, j, ';') {
            Outcome::Done(acc, j + 1)
        } else {
            match ident(s, i) {
                Outcome::Done(n, e) => {
                    let k = skip_ws(s, e);
                    if at(s, k, ',') && k + 1 > i {
                        fn_names(s, k + 1, acc.push(n))
                    } else if at(s, k, ';') {
                        Outcome::Done(acc.push(n), k + 1)
                    } else {
                        Outcome::Fail(k, "expected `,` or `;`"@)
                    }
                },
                Outcome::Fail(p, m) => Outcome::Fail(p, m),
                Outcome::Abort(m) => Outcome::Abort(m),
            }
        }
    }
}

/// One inventory item at `i`: a directive or a `file: fn, ...;` entry.
pub open spec fn inv_item(s: Seq<char>, i: int, st: InvState) -> Outcome<InvState> {
    let j = skip_ws(s, i);
    if at(s, j, '#') {
        directive(s, j + 1, st)
    } else {
        match ident(s, j) {
            Outcome::Done(file, e1) => match punct(s, e1, ':', "expected `:`"@) {
                Outcome::Done(_, e2) => match fn_names(s, e2, Seq::empty()) {
                    Outcome::Done(fs, e3) => Outcome::Done(
                        InvState { entries: st.entries.push(EntryM { file, functions: fs }), ..st },
                        e3,
                    ),
                    Outcome::Fail(p, m) => Outcome::Fail(p, m),
                    Outcome::Abort(m) => Outcome::Abort(m),
                },
                Outcome::Fail(p, m) => Outcome::Fail(p, m),
                Outcome::Abort(m) => Outcome::Abort(m),
            },
            Outcome::Fail(p, m) => Outcome::Fail(p, m),
            Outcome::Abort(m) => Outcome::Abort(m),
        }
    }
}

/// The items of an inventory file from `i` to the end.
pub open spec fn inv_items(s: Seq<char>, i: int, st: InvState) -> Outcome<InvState>
    decreases s.len() - i,
{
    if i < 0 || i > s.len() {
        Outcome::Fail(i, "expected inventory entry"@)
    } else {
        let k = skip_ws(s, i);
        if k >= s.len() {
            Outcome::Done(st, k)
        } else {
            match inv_item(s, i, st) {
                Outcome::Done(st2, e) => if i < e <= s.len() {
                    inv_items(s, e, st2)
                } else {
                    Outcome::Fail(e, "expected inventory entry"@)
                },
                Outcome::Fail(p, m) => Outcome::Fail(p, m),
                Outcome::Abort(m) => Outcome::Abort(m),
            }
        }
    }
}

pub open spec fn empty_inv() -> InvState {
    InvState { rank: None, lang: None, libs: Seq::empty(), entries: Seq::empty() }
}

/// A whole inventory file; an inventory without a valid `#rank` aborts.
pub open spec fn inventory_file(s: Seq<char>) -> Outcome<InventoryM> {
    match inv_items(s, 0, empty_inv()) {
        Outcome::Done(st, e) => match st.rank {
            Some(r) => Outcome::Done(
                InventoryM { rank: r, lang: st.lang, libs: st.libs, entries: st.entries },
                e,
            ),
            None => Outcome::Abort("inventory.bu is missing #rank"@),
        },
        Outcome::Fail(p, m) => Outcome::Fail(p, m),
        Outcome::Abort(m) => Outcome::Abort(m),
    }
}


proof fn lemma_digit_run_shift(r: Seq<char>, k: int)
    requires
        0 <= k <= r.len(),
    ensures
        digit_run(seq!['-'] + r, k + 1) == 1 + digit_run(r, k),
    decreases r.len() - k,
{
    let a = seq!['-'] + r;
    if k < r.len() {
        assert(a[k + 1] == r[k]);
        if is_digit(r[k]) {
            lemma_digit_run_shift(r, k + 1);
        }
    }
}

/// A minus sign before an integer literal negates it: `-d` reads as the
/// opposite of what `d` reads as, and never as a positive number.
pub proof fn law_negative_literals(r: Seq<char>)
    requires
        r.len() > 0,
        is_digit(r[0]),
    ensures
        atom(r, 0) matches Outcome::Done(AtomM::Integer(v), e) ==> v >= 0
            && atom(seq!['-'] + r, 0) == Outcome::<AtomM>::Done(AtomM::Integer(-v), e + 1),
        atom(seq!['-'] + r, 0) matches Outcome::Done(AtomM::Integer(w), _) ==> w <= 0,
{
    let a = seq!['-'] + r;
    assert(a[0] == '-' && a[1] == r[0]);
    assert(skip_ws(r, 0) == 0);
    assert(skip_ws(a, 0) == 0);
    lemma_runs(r, 0);
    lemma_digit_run_shift(r, 0);
    let e = digit_run(r, 0);
    assert(int_end(a, 0) == e + 1);
    assert(int_end(r, 0) == e);
    assert(a.subrange(1, e + 1) =~= r.subrange(0, e));
    assert(int_value(a, 0, e + 1) == -(int_value(r, 0, e)));
}


proof fn lemma_decimal_reads_back(n: nat)
    ensures
        crate::text::decimal(n).len() > 0,
        forall|k: int| 0 <= k < crate::text::decimal(n).len() ==> is_digit(#[trigger] crate::text::decimal(n)[k]),
        digits_value(crate::text::decimal(n)) == n,
    decreases n,
{
    let d = crate::text::decimal(n);
    if n >= 10 {
        lemma_decimal_reads_back(n / 10);
        let q = crate::text::decimal(n / 10);
        let r = (n % 10) as nat;
        assert(d == q.push(crate::text::digit_char(r)));
        assert(d.drop_last() =~= q);
        assert(forall|k: int| 0 <= k < q.len() ==> d[k] == q[k]);
        assert((crate::text::digit_char(r) as int) - ('0' as int) == r);
        assert(d.last() == crate::text::digit_char(r));
        assert(digits_value(d) == digits_value(q) * 10 + r);
        assert((n / 10) * 10 + n % 10 == n) by (nonlinear_arith);
        assert(digits_value(q) == n / 10);
    } else {
        assert((crate::text::digit_char(n) as int) - ('0' as int) == n);
        assert(d.drop_last() =~= Seq::<char>::empty());
        assert(d.last() == crate::text::digit_char(n));
        assert(digits_value(Seq::<char>::empty()) == 0);
        assert(digits_value(d) == digits_value(d.drop_last()) * 10 + ((d.last() as int - '0' as int) as nat));
        assert(digits_value(d) == n);
    }
}

proof fn lemma_digit_run_all(s: Seq<char>, k: int)
    requires
        0 <= k <= s.len(),
        forall|t: int| k <= t < s.len() ==> is_digit(#[trigger] s[t]),
    ensures
        digit_run(s, k) == s.len(),
    decreases s.len() - k,
{
    if k < s.len() {
        lemma_digit_run_all(s, k + 1);
    }
}

/// The text that an integer is emitted as reads back as that integer: for
/// every 64-bit value, reading its decimal notation (with a `-` when
/// negative) gives the same value and consumes the whole text.
pub proof fn law_integer_literal_round_trip(v: int)
    requires
        i64::MIN <= v <= i64::MAX,
    ensures
        atom(crate::text::decimal_int(v), 0)
            == Outcome::<AtomM>::Done(AtomM::Integer(v), crate::text::decimal_int(v).len() as int),
{
    let s = crate::text::decimal_int(v);
    if v < 0 {
        let d = crate::text::decimal((-v) as nat);
        lemma_decimal_reads_back((-v) as nat);
        assert(s == seq!['-'] + d);
        assert(s[0] == '-' && s[1] == d[0]);
        assert(forall|t: int| 1 <= t < s.len() ==> s[t] == d[t - 1]);
        lemma_digit_run_all(s, 1);
        assert(s.subrange(1, s.len() as int) =~= d);
        assert(skip_ws(s, 0) == 0);
    } else {
        let d = crate::text::decimal(v as nat);
        lemma_decimal_reads_back(v as nat);
        lemma_digit_run_all(s, 0);
        assert(s.subrange(0, s.len() as int) =~= d);
        assert(skip_ws(s, 0) == 0);
    }
}


proof fn lemma_ident_run_all(s: Seq<char>, k: int)
    requires
        0 <= k <= s.len(),
        forall|t: int| k <= t < s.len() ==> is_ident_char(#[trigger] s[t]),
    ensures
        ident_run(s, k) == s.len(),
    decreases s.len() - k,
{
    if k < s.len() {
        lemma_ident_run_all(s, k + 1);
    }
}

/// A name reads as that name: an identifier that is neither an integer nor
/// followed by `(` is an operand naming a binding, and the whole of it is
/// read.
pub proof fn law_identifier_operand(n: Seq<char>)
    requires
        n.len() > 0,
        is_ident_start(n[0]),
        forall|t: int| 0 <= t < n.len() ==> is_ident_char(#[trigger] n[t]),
    ensures
        atom(n, 0) == Outcome::<AtomM>::Done(AtomM::Ident(n), n.len() as int),
{
    lemma_ident_run_all(n, 1);
    assert(skip_ws(n, 0) == 0);
    assert(skip_ws(n, n.len() as int) == n.len());
    assert(n.subrange(0, n.len() as int) =~= n);
}

} // verus!
