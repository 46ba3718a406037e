//! Code generation: a syntax tree rendered as Rust source, and the crate
//! files (`Cargo.toml`, `lib.rs`, `mod.rs`) around it.

use vstd::prelude::*;
use crate::ast::{Atom, Backend, Bullet, BulletBody, CallArg, Expr, Param, SourceFile, lemma_ty_text, tm_text, ty_model};
use crate::model::{
    ArgM, AtomM, BackendM, BodyM, BulletM, ExprM, ParamM, PipeM, arg_m, args_m, atom_m, backend_m, body_m,
    bullet_m, expr_m, exprs_m, lemma_exprs_m, params_m, pipe_m, pipes_m, source_m, strs_m,
};
use crate::stdlib::{builtin_code, emit_builtin};
use crate::text::{
    all_ws, chars_of, decimal_int, find_char, i64_to_string, is_whitespace, is_ws, lemma_find_char_skip, lines_of, owned,
    push_char, str_eq, strip_cr,
};

verus! {

// ── Expressions ──────────────────────────────────────────────────────────────

/// The arguments of a call, each by its name, joined by `", "`.
pub open spec fn args_text(args: Seq<ArgM>) -> Seq<char>
    decreases args.len(),
{
    if args.len() == 0 {
        Seq::empty()
    } else {
        let last = match args.last() {
            ArgM::Value(s) => s,
            ArgM::Ref(s) => s,
        };
        if args.len() == 1 { last } else { args_text(args.drop_last()) + ", "@ + last }
    }
}

/// The Rust form of an operand. A string literal becomes an owned `String`;
/// a string with `{name}` placeholders becomes a `format!` call, which fills
/// them from the variables in scope.
pub open spec fn atom_text(a: AtomM) -> Seq<char> {
    match a {
        AtomM::Ident(s) => s,
        AtomM::Integer(n) => decimal_int(n),
        AtomM::Str(s) => "String::from(\""@ + s + "\")"@,
        AtomM::Interp(t) => "format!(\""@ + t + "\")"@,
        AtomM::Call(name, args) => name + "("@ + args_text(args) + ")"@,
    }
}

/// The Rust form of an expression.
pub open spec fn expr_text(e: ExprM) -> Seq<char>
    decreases e,
{
    match e {
        ExprM::Atom(a) => atom_text(a),
        ExprM::Bin(l, op, r) => atom_text(l) + " "@ + op + " "@ + atom_text(r),
        ExprM::Tuple(es) => "("@ + exprs_text(es) + ")"@,
    }
}

pub open spec fn exprs_text(es: Seq<ExprM>) -> Seq<char>
    decreases es,
{
    if es.len() == 0 {
        Seq::empty()
    } else if es.len() == 1 {
        expr_text(es[0])
    } else {
        exprs_text(es.drop_last()) + ", "@ + expr_text(es.last())
    }
}

fn emit_atom(atom: &Atom) -> (r: String)
    ensures
        r@ == atom_text(atom_m(*atom)),
{
    match atom {
        Atom::Ident(s) => owned(s.as_str()),
        Atom::Integer(n) => i64_to_string(*n),
        Atom::StringLit(s) => {
            let mut r = owned("String::from(\"");
            r.append(s.as_str());
            r.append("\")");
            r
        },
        Atom::Interp(t) => {
            let mut r = owned("format!(\"");
            r.append(t.as_str());
            r.append("\")");
            r
        },
        Atom::Call { name, args } => {
            let ghost am = args_m(args@);
            let mut r = owned(name.as_str());
            r.append("(");
            let ghost head = r@;
            let mut i: usize = 0;
            assert(am.take(0) =~= Seq::<ArgM>::empty());
            assert(r@ =~= head + args_text(am.take(0)));
            while i < args.len()
                invariant
                    i <= args.len(),
                    am == args_m(args@),
                    r@ == head + args_text(am.take(i as int)),
                decreases args.len() - i,
            {
                assert(am.take(i + 1).drop_last() =~= am.take(i as int));
                assert(am.take(i + 1).last() == arg_m(args@[i as int]));
                if i > 0 {
                    r.append(", ");
                }
                match &args[i] {
                    CallArg::Value(s) => r.append(s.as_str()),
                    CallArg::BulletRef(s) => r.append(s.as_str()),
                }
                proof {
                    if i == 0 {
                        assert(am.take(1).len() == 1);
                    }
                }
                i = i + 1;
            }
            assert(am.take(args.len() as int) =~= am);
            r.append(")");
            r
        },
    }
}

#[verifier::loop_isolation(false)]
fn emit_expr(expr: &Expr) -> (r: String)
    ensures
        r@ == expr_text(expr_m(*expr)),
    decreases expr,
{
    match expr {
        Expr::Atom(a) => emit_atom(a),
        Expr::BinOp(b) => {
            let mut r = emit_atom(&b.lhs);
            r.append(" ");
            r.append(b.op.as_str());
            r.append(" ");
            r.append(emit_atom(&b.rhs).as_str());
            r
        },
        Expr::Tuple(es) => {
            let ghost em = exprs_m(es@);
            proof { lemma_exprs_m(es@); }
            let mut r = owned("(");
            let mut i: usize = 0;
            assert(em.take(0) =~= Seq::<ExprM>::empty());
            assert(r@ =~= "("@ + exprs_text(em.take(0)));
            while i < es.len()
                invariant
                    i <= es.len(),
                    em == exprs_m(es@),
                    em.len() == es.len(),
                    forall|j: int| 0 <= j < es.len() ==> #[trigger] em[j] == expr_m(es@[j]),
                    r@ == "("@ + exprs_text(em.take(i as int)),
                decreases es.len() - i,
            {
                assert(em.take(i + 1).drop_last() =~= em.take(i as int));
                assert(em.take(i + 1).last() == expr_m(es@[i as int]));
                if i > 0 {
                    r.append(", ");
                }
                let piece = emit_expr(&es[i]);
                r.append(piece.as_str());
                proof {
                    if i == 0 {
                        assert(em.take(1)[0] == em[0]);
                    }
                }
                i = i + 1;
            }
            assert(em.take(es.len() as int) =~= em);
            r.append(")");
            r
        },
    }
}


// ── Lines of native code ─────────────────────────────────────────────────────

/// A native line as emitted: indented, or a bare newline when blank.
pub open spec fn native_line(l: Seq<char>) -> Seq<char> {
    if all_ws(l) { "\n"@ } else { "    "@ + l + "\n"@ }
}

pub open spec fn native_text(ls: Seq<Seq<char>>) -> Seq<char>
    decreases ls.len(),
{
    if ls.len() == 0 { Seq::empty() } else { native_line(ls[0]) + native_text(ls.skip(1)) }
}

fn all_blank(v: &Vec<char>, from: usize, to: usize) -> (r: bool)
    requires
        from <= to <= v.len(),
    ensures
        r == all_ws(v@.subrange(from as int, to as int)),
{
    let mut i: usize = from;
    while i < to
        invariant
            from <= i <= to <= v.len(),
            forall|t: int| from <= t < i ==> is_ws(#[trigger] v@[t]),
        decreases to - i,
    {
        if !is_whitespace(v[i]) {
            assert(v@.subrange(from as int, to as int)[i - from] == v@[i as int]);
            return false;
        }
        i = i + 1;
    }
    assert forall|t: int| 0 <= t < v@.subrange(from as int, to as int).len() implies is_ws(
        #[trigger] v@.subrange(from as int, to as int)[t]) by {
        assert(v@.subrange(from as int, to as int)[t] == v@[from + t]);
    }
    true
}

/// Appends one native line `v[from..to]`.
fn push_native_line(out: &mut String, v: &Vec<char>, from: usize, to: usize)
    requires
        from <= to <= v.len(),
    ensures
        final(out)@ == old(out)@ + native_line(v@.subrange(from as int, to as int)),
{
    if all_blank(v, from, to) {
        out.append("\n");
    } else {
        out.append("    ");
        out.append(crate::text::slice_string(v, from, to).as_str());
        out.append("\n");
    }
}

/// Appends the lines of a native code block.
fn push_native(out: &mut String, code: &str)
    ensures
        final(out)@ == old(out)@ + native_text(lines_of(code@)),
{
    let v = chars_of(code);
    let n = v.len();
    let ghost start0 = out@;
    let mut start: usize = 0;
    assert(v@.skip(0) =~= v@);
    assert(out@ =~= start0 + Seq::<char>::empty());
    while start < n
        invariant
            start <= n,
            n == v.len(),
            v@ == code@,
            out@ + native_text(lines_of(v@.skip(start as int))) == start0 + native_text(lines_of(v@)),
        decreases n - start,
    {
        let ghost rest = v@.skip(start as int);
        let mut k: usize = start;
        while k < n && v[k] != '\n'
            invariant
                start <= k <= n,
                n == v.len(),
                find_char(v@, '\n', start as int) == find_char(v@, '\n', k as int),
            decreases n - k,
        {
            k = k + 1;
        }
        proof {
            lemma_find_char_skip(v@, '\n', start as int, start as int);
            assert(find_char(rest, '\n', 0) == k - start);
        }
        let ghost before = out@;
        if k >= n {
            push_native_line(out, &v, start, n);
            proof {
                assert(v@.subrange(start as int, n as int) =~= rest);
                assert(lines_of(rest) == seq![rest]);
                assert(native_text(seq![rest]) =~= native_line(rest) + native_text(seq![rest].skip(1)));
                assert(seq![rest].skip(1) =~= Seq::<Seq<char>>::empty());
                assert(v@.skip(n as int) =~= Seq::<char>::empty());
                assert(out@ + native_text(lines_of(v@.skip(n as int))) =~= before + native_text(lines_of(rest)));
            }
            start = n;
        } else {
            let end = if k > start && v[k - 1] == '\r' { k - 1 } else { k };
            push_native_line(out, &v, start, end);
            proof {
                let line = rest.subrange(0, k - start);
                assert(line =~= v@.subrange(start as int, k as int));
                assert(strip_cr(line) =~= v@.subrange(start as int, end as int));
                assert(rest.skip(k - start + 1) =~= v@.skip(k + 1));
                let ls = lines_of(rest);
                assert(ls == seq![strip_cr(line)] + lines_of(v@.skip(k + 1)));
                assert(ls.skip(1) =~= lines_of(v@.skip(k + 1)));
                assert(ls[0] == strip_cr(line));
                assert(native_text(ls) == native_line(ls[0]) + native_text(ls.skip(1)));
                assert(out@ + native_text(lines_of(v@.skip(k + 1))) =~= before + native_text(ls));
            }
            start = k + 1;
        }
    }
    assert(v@.skip(n as int) =~= Seq::<char>::empty());
    assert(out@ + Seq::<char>::empty() =~= out@);
}


// ── Bodies and functions ─────────────────────────────────────────────────────

/// The pipes of a body: each a `let`; after the last one, its binding as the
/// result. `last` is the index of the last pipe.
pub open spec fn pipes_text(ps: Seq<PipeM>, last: int) -> Seq<char>
    decreases ps.len(),
{
    if ps.len() == 0 {
        Seq::empty()
    } else {
        let p = ps.last();
        pipes_text(ps.drop_last(), last) + "    let "@ + p.binding + " = "@ + expr_text(p.expr) + ";\n"@
            + (if ps.len() - 1 == last { "    "@ + p.binding + "\n"@ } else { Seq::empty() })
    }
}

/// The body of a function as emitted for `backend`.
pub open spec fn body_text(b: BodyM, params: Seq<ParamM>, backend: BackendM) -> Seq<char> {
    match b {
        BodyM::Pipes(ps) => pipes_text(ps, ps.len() - 1),
        BodyM::Native(nb, code) => match nb {
            BackendM::Unknown(kw) => "    compile_error!(\"'@"@ + kw + "' is not a supported backend\")\n"@,
            _ => native_text(lines_of(code)),
        },
        BodyM::Builtin(name) => match builtin_code(name, params, backend) {
            Ok(c) => "    "@ + c + "\n"@,
            Err(e) => "    compile_error!(\""@ + e + "\")\n"@,
        },
    }
}

fn emit_body(out: &mut String, body: &BulletBody, params: &[Param], backend: &Backend)
    ensures
        final(out)@ == old(out)@ + body_text(body_m(*body), params_m(params@), backend_m(*backend)),
{
    match body {
        BulletBody::Pipes(pipes) => {
            let ghost pm = pipes_m(pipes@);
            let ghost start = out@;
            let last: usize = if pipes.len() == 0 { 0 } else { pipes.len() - 1 };
            let mut i: usize = 0;
            assert(pm.take(0) =~= Seq::<PipeM>::empty());
            assert(out@ =~= start + pipes_text(pm.take(0), pm.len() - 1));
            while i < pipes.len()
                invariant
                    i <= pipes.len(),
                    pm == pipes_m(pipes@),
                    last == pipes.len() - 1 || pipes.len() == 0,
                    out@ == start + pipes_text(pm.take(i as int), pm.len() - 1),
                decreases pipes.len() - i,
            {
                assert(pm.take(i + 1).drop_last() =~= pm.take(i as int));
                assert(pm.take(i + 1).last() == pipe_m(pipes@[i as int]));
                let pipe = &pipes[i];
                let expr_str = emit_expr(&pipe.expr);
                let ghost before = out@;
                out.append("    let ");
                out.append(pipe.binding.as_str());
                out.append(" = ");
                out.append(expr_str.as_str());
                out.append(";\n");
                if i == last {
                    out.append("    ");
                    out.append(pipe.binding.as_str());
                    out.append("\n");
                }
                assert(out@ =~= start + pipes_text(pm.take(i + 1), pm.len() - 1));
                i = i + 1;
            }
            assert(pm.take(pipes.len() as int) =~= pm);
        },
        BulletBody::Native { backend: nb, code } => match nb {
            Backend::Unknown(kw) => {
                out.append("    compile_error!(\"'@");
                out.append(kw.as_str());
                out.append("' is not a supported backend\")\n");
            },
            _ => push_native(out, code.as_str()),
        },
        BulletBody::Builtin(name) => match emit_builtin(name.as_str(), params, backend) {
            Ok(code) => {
                out.append("    ");
                out.append(code.as_str());
                out.append("\n");
            },
            Err(e) => {
                out.append("    compile_error!(\"");
                out.append(e.as_str());
                out.append("\")\n");
            },
        },
    }
}

/// The parameters of a function as Rust declares them, joined by `", "`.
pub open spec fn params_text(ps: Seq<ParamM>) -> Seq<char>
    decreases ps.len(),
{
    if ps.len() == 0 {
        Seq::empty()
    } else {
        let piece = ps.last().name + ": "@ + tm_text(ps.last().ty);
        if ps.len() == 1 { piece } else { params_text(ps.drop_last()) + ", "@ + piece }
    }
}

/// A function as emitted, public or not, with its parameters, its return
/// type and its body.
pub open spec fn function_text(b: BulletM, params: Seq<ParamM>, backend: BackendM, public: bool) -> Seq<char> {
    (if public { "pub fn "@ } else { "fn "@ }) + b.name + "("@ + params_text(b.params) + ") -> "@ + tm_text(b.out_ty) + " {\n"@
        + body_text(b.body, params, backend) + "}\n"@
}

/// The `main` function: no parameters, no return type, not public.
pub open spec fn main_function_text(b: BulletM) -> Seq<char> {
    "fn main() {\n"@ + body_text(b.body, b.params, BackendM::Rust) + "}\n"@
}

fn emit_function(func: &Bullet, backend: &Backend, public: bool) -> (r: String)
    ensures
        r@ == function_text(bullet_m(*func), params_m(func.params@), backend_m(*backend), public),
{
    let ghost pm = params_m(func.params@);
    let mut params = String::new();
    let mut i: usize = 0;
    assert(pm.take(0) =~= Seq::<ParamM>::empty());
    while i < func.params.len()
        invariant
            i <= func.params.len(),
            pm == params_m(func.params@),
            params@ == params_text(pm.take(i as int)),
        decreases func.params.len() - i,
    {
        assert(pm.take(i + 1).drop_last() =~= pm.take(i as int));
        assert(pm.take(i + 1).last() == crate::model::param_m(func.params@[i as int]));
        if i > 0 {
            params.append(", ");
        }
        params.append(func.params[i].name.as_str());
        params.append(": ");
        proof { lemma_ty_text(func.params@[i as int].ty); }
        params.append(func.params[i].ty.to_rust().as_str());
        proof {
            if i == 0 {
                assert(params@ =~= params_text(pm.take(1)));
            }
        }
        i = i + 1;
    }
    assert(pm.take(func.params.len() as int) =~= pm);
    proof { lemma_ty_text(func.output.ty); }
    let ret_ty = func.output.ty.to_rust();
    let mut out = if public { owned("pub fn ") } else { owned("fn ") };
    out.append(func.name.as_str());
    out.append("(");
    out.append(params.as_str());
    out.append(") -> ");
    out.append(ret_ty.as_str());
    out.append(" {\n");
    emit_body(&mut out, &func.body, func.params.as_slice(), backend);
    out.append("}\n");
    out
}

fn emit_main_function(func: &Bullet) -> (r: String)
    ensures
        r@ == main_function_text(bullet_m(*func)),
{
    let mut out = owned("fn main() {\n");
    emit_body(&mut out, &func.body, func.params.as_slice(), &Backend::Rust);
    out.append("}\n");
    out
}

// ── Files ────────────────────────────────────────────────────────────────────

/// The functions of a file, each public; `#test` functions are left out
/// (only `bullang test` compiles them).
#[verifier::opaque]
pub open spec fn functions_text(bs: Seq<BulletM>) -> Seq<char>
    decreases bs.len(),
{
    if bs.len() == 0 {
        Seq::empty()
    } else if bs.last().is_test {
        functions_text(bs.drop_last())
    } else {
        functions_text(bs.drop_last()) + function_text(bs.last(), bs.last().params, BackendM::Rust, true) + "\n"@
    }
}

/// A source file as a Rust module: its functions other than `#test` ones.
pub open spec fn source_text(bs: Seq<BulletM>) -> Seq<char> {
    "#[allow(unused_imports)]\n"@ + "use crate::*;\n\n"@ + functions_text(bs)
}

pub fn emit_source(file: &SourceFile) -> (r: String)
    ensures
        r@ == source_text(source_m(*file)),
{
    reveal(functions_text);
    let ghost bs = source_m(*file);
    let mut out = owned("#[allow(unused_imports)]\n");
    out.append("use crate::*;\n\n");
    let ghost head = out@;
    let mut i: usize = 0;
    assert(bs.take(0) =~= Seq::<BulletM>::empty());
    assert(out@ =~= head + functions_text(bs.take(0)));
    while i < file.bullets.len()
        invariant
            i <= file.bullets.len(),
            bs == source_m(*file),
            out@ == head + functions_text(bs.take(i as int)),
        decreases file.bullets.len() - i,
    {
        assert(bs.take(i + 1).drop_last() =~= bs.take(i as int));
        assert(bs.take(i + 1).last() == bullet_m(file.bullets@[i as int]));
        if !file.bullets[i].is_test {
            let f = emit_function(&file.bullets[i], &Backend::Rust, true);
            out.append(f.as_str());
            out.append("\n");
        }
        proof { reveal(functions_text); }
        assert(out@ =~= head + functions_text(bs.take(i + 1)));
        i = i + 1;
    }
    assert(bs.take(file.bullets.len() as int) =~= bs);
    proof { reveal_strlit("#[allow(unused_imports)]\n"); reveal_strlit("use crate::*;\n\n"); }
    assert(out@ =~= source_text(bs));
    out
}

/// The functions of `main.bu`: `main` as the entry point, the others as
/// private helpers (`fn`, not `pub fn`); `#test` functions are left out.
#[verifier::opaque]
pub open spec fn main_functions_text(bs: Seq<BulletM>) -> Seq<char>
    decreases bs.len(),
{
    if bs.len() == 0 {
        Seq::empty()
    } else if bs.last().is_test {
        main_functions_text(bs.drop_last())
    } else {
        main_functions_text(bs.drop_last()) + (if bs.last().name == "main"@ {
            main_function_text(bs.last())
        } else {
            function_text(bs.last(), bs.last().params, BackendM::Rust, false)
        }) + "\n"@
    }
}

/// `main.rs` from `main.bu`: the library imported, then each function; the
/// one named `main` is the entry point (no parameters, no return type), the
/// others are helpers that get `fn` but not `pub`.
pub open spec fn main_text(bs: Seq<BulletM>, crate_name: Seq<char>) -> Seq<char> {
    "use "@ + crate_name + "::*;\n\n"@ + main_functions_text(bs)
}

pub fn emit_main(file: &SourceFile, crate_name: &str) -> (r: String)
    ensures
        r@ == main_text(source_m(*file), crate_name@),
{
    reveal(main_functions_text);
    let ghost bs = source_m(*file);
    let mut out = owned("use ");
    out.append(crate_name);
    out.append("::*;\n\n");
    let ghost head = out@;
    let mut i: usize = 0;
    assert(bs.take(0) =~= Seq::<BulletM>::empty());
    assert(out@ =~= head + main_functions_text(bs.take(0)));
    while i < file.bullets.len()
        invariant
            i <= file.bullets.len(),
            bs == source_m(*file),
            out@ == head + main_functions_text(bs.take(i as int)),
        decreases file.bullets.len() - i,
    {
        assert(bs.take(i + 1).drop_last() =~= bs.take(i as int));
        assert(bs.take(i + 1).last() == bullet_m(file.bullets@[i as int]));
        let func = &file.bullets[i];
        if !func.is_test {
            let f = if str_eq(func.name.as_str(), "main") { emit_main_function(func) } else { emit_function(func, &Backend::Rust, false) };
            out.append(f.as_str());
            out.append("\n");
        }
        proof { reveal(main_functions_text); }
        assert(out@ =~= head + main_functions_text(bs.take(i + 1)));
        i = i + 1;
    }
    assert(bs.take(file.bullets.len() as int) =~= bs);
    out
}

/// `Cargo.toml` of a crate with both a binary and a library.
pub open spec fn cargo_with_main_text(name: Seq<char>) -> Seq<char> {
    "[package]\nname    = \""@ + name + "\"\nversion = \"0.1.0\"\nedition = \"2021\"\n\n[[bin]]\nname = \""@ + name
        + "\"\npath = \"src/main.rs\"\n\n[lib]\nname = \""@ + name + "\"\npath = \"src/lib.rs\"\n\n[dependencies]\n"@
}

pub fn emit_cargo_toml_with_main(crate_name: &str) -> (r: String)
    ensures
        r@ == cargo_with_main_text(crate_name@),
{
    let mut r = owned("[package]\nname    = \"");
    r.append(crate_name);
    r.append("\"\nversion = \"0.1.0\"\nedition = \"2021\"\n\n[[bin]]\nname = \"");
    r.append(crate_name);
    r.append("\"\npath = \"src/main.rs\"\n\n[lib]\nname = \"");
    r.append(crate_name);
    r.append("\"\npath = \"src/lib.rs\"\n\n[dependencies]\n");
    r
}

/// `Cargo.toml` of a library crate.
pub open spec fn cargo_text(name: Seq<char>) -> Seq<char> {
    "[package]\nname    = \""@ + name + "\"\nversion = \"0.1.0\"\nedition = \"2021\"\n\n[dependencies]\n"@
}

pub fn emit_cargo_toml(crate_name: &str) -> (r: String)
    ensures
        r@ == cargo_text(crate_name@),
{
    let mut r = owned("[package]\nname    = \"");
    r.append(crate_name);
    r.append("\"\nversion = \"0.1.0\"\nedition = \"2021\"\n\n[dependencies]\n");
    r
}

/// `pub mod <m>;` for each module.
pub open spec fn mods_text(ms: Seq<Seq<char>>) -> Seq<char>
    decreases ms.len(),
{
    if ms.len() == 0 { Seq::empty() } else { mods_text(ms.drop_last()) + "pub mod "@ + ms.last() + ";\n"@ }
}

/// `pub use <m>::*;` for each module.
pub open spec fn uses_text(ms: Seq<Seq<char>>) -> Seq<char>
    decreases ms.len(),
{
    if ms.len() == 0 { Seq::empty() } else { uses_text(ms.drop_last()) + "pub use "@ + ms.last() + "::*;\n"@ }
}

/// The declarations and re-exports of child modules.
pub open spec fn module_list_text(ms: Seq<Seq<char>>) -> Seq<char> {
    mods_text(ms) + (if ms.len() > 0 { "\n"@ + uses_text(ms) } else { Seq::empty() })
}

fn push_module_list(out: &mut String, child_modules: &[String])
    ensures
        final(out)@ == old(out)@ + module_list_text(strs_m(child_modules@)),
{
    let ghost ms = strs_m(child_modules@);
    let ghost start = out@;
    let mut i: usize = 0;
    assert(ms.take(0) =~= Seq::<Seq<char>>::empty());
    assert(out@ =~= start + mods_text(ms.take(0)));
    while i < child_modules.len()
        invariant
            i <= child_modules.len(),
            ms == strs_m(child_modules@),
            out@ == start + mods_text(ms.take(i as int)),
        decreases child_modules.len() - i,
    {
        assert(ms.take(i + 1).drop_last() =~= ms.take(i as int));
        assert(ms.take(i + 1).last() == child_modules@[i as int]@);
        out.append("pub mod ");
        out.append(child_modules[i].as_str());
        out.append(";\n");
        assert(out@ =~= start + mods_text(ms.take(i + 1)));
        i = i + 1;
    }
    assert(ms.take(child_modules.len() as int) =~= ms);
    if child_modules.len() > 0 {
        out.append("\n");
        let ghost mid = out@;
        let mut j: usize = 0;
        assert(out@ =~= mid + uses_text(ms.take(0)));
        while j < child_modules.len()
            invariant
                j <= child_modules.len(),
                ms == strs_m(child_modules@),
                out@ == mid + uses_text(ms.take(j as int)),
            decreases child_modules.len() - j,
        {
            assert(ms.take(j + 1).drop_last() =~= ms.take(j as int));
            assert(ms.take(j + 1).last() == child_modules@[j as int]@);
            out.append("pub use ");
            out.append(child_modules[j].as_str());
            out.append("::*;\n");
            assert(out@ =~= mid + uses_text(ms.take(j + 1)));
            j = j + 1;
        }
        assert(ms.take(child_modules.len() as int) =~= ms);
    }
    assert(out@ =~= start + module_list_text(ms));
}

/// `mod.rs` of a folder with the given child modules.
pub fn emit_mod_rs(child_modules: &[String]) -> (r: String)
    ensures
        r@ == module_list_text(strs_m(child_modules@)),
{
    let mut out = String::new();
    push_module_list(&mut out, child_modules);
    out
}

/// `lib.rs` of the generated crate.
pub fn emit_lib_rs(child_modules: &[String]) -> (r: String)
    ensures
        r@ == "#![allow(unused_imports)]\n\n"@ + module_list_text(strs_m(child_modules@)),
{
    let mut out = owned("#![allow(unused_imports)]\n\n");
    push_module_list(&mut out, child_modules);
    out
}


proof fn lemma_pipes_text_no_return(ps: Seq<PipeM>, last: int)
    requires
        last >= ps.len() || last < 0,
    ensures
        pipes_text(ps, last) == pipes_text(ps, -1),
    decreases ps.len(),
{
    if ps.len() > 0 {
        lemma_pipes_text_no_return(ps.drop_last(), last);
        lemma_pipes_text_no_return(ps.drop_last(), -1);
    }
}

/// The last binding of a pipe chain is what the emitted function returns:
/// every pipe becomes a `let`, and one line naming the last binding follows
/// the last of them, and only it.
pub proof fn law_last_binding_returned(ps: Seq<PipeM>, params: Seq<ParamM>, backend: BackendM)
    requires
        ps.len() > 0,
    ensures
        body_text(BodyM::Pipes(ps), params, backend) == pipes_text(ps.drop_last(), -1)
            + "    let "@ + ps.last().binding + " = "@ + expr_text(ps.last().expr) + ";\n"@
            + "    "@ + ps.last().binding + "\n"@,
{
    lemma_pipes_text_no_return(ps.drop_last(), ps.len() - 1);
}


/// A string literal is emitted as an owned string; one that holds `{`
/// placeholders is emitted through `format!`, which fills them from the
/// bindings in scope. The two renderings of the same text always differ.
pub proof fn law_string_literals_emitted(content: Seq<char>)
    ensures
        atom_text(crate::grammar::string_atom(content)) == (if content.contains('{') {
            "format!(\""@ + content + "\")"@
        } else {
            "String::from(\""@ + content + "\")"@
        }),
        atom_text(AtomM::Interp(content)) != atom_text(AtomM::Str(content)),
{
    reveal_strlit("format!(\"");
    reveal_strlit("String::from(\"");
    let f = "format!(\""@ + content + "\")"@;
    let g = "String::from(\""@ + content + "\")"@;
    assert(f[0] == 'f');
    assert(g[0] == 'S');
}

/// An integer operand is emitted as text that reads back as the same
/// operand: emitting and then parsing a literal gives it back.
pub proof fn law_integer_operand_round_trip(v: int)
    requires
        i64::MIN <= v <= i64::MAX,
    ensures
        crate::grammar::atom(atom_text(AtomM::Integer(v)), 0)
            == crate::grammar::Outcome::<AtomM>::Done(AtomM::Integer(v), atom_text(AtomM::Integer(v)).len() as int),
{
    crate::grammar::law_integer_literal_round_trip(v);
}

} // verus!
