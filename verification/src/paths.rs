//! Paths as `/`-separated text: their components, their last name, and
//! whether one lies inside another, as `std::path::Path` reads them.

use vstd::prelude::*;
use crate::model::strs_m;
use crate::text::{chars_of, find_char, lemma_find_char, lemma_find_char_skip, owned, slice_string};

verus! {

/// The pieces of a path between separators that name something: not empty
/// and not `.`.
pub open spec fn normal_parts(p: Seq<char>) -> Seq<Seq<char>>
    decreases p.len(),
{
    let k = find_char(p, '/', 0);
    proof { lemma_find_char(p, '/', 0); }
    let piece = p.take(k);
    (if piece.len() > 0 && piece != "."@ { seq![piece] } else { Seq::empty() }) + (if k < p.len() {
        normal_parts(p.skip(k + 1))
    } else {
        Seq::empty()
    })
}

/// The path starts with `./` (or is `.`).
pub open spec fn leading_dot(p: Seq<char>) -> bool {
    (p.len() == 1 && p[0] == '.') || (p.len() >= 2 && p[0] == '.' && p[1] == '/')
}

/// The components of a path (`Path::components`): `/` for the root, `.` for
/// a leading current-folder mark, then the pieces that name something.
pub open spec fn components_of(p: Seq<char>) -> Seq<Seq<char>> {
    if p.len() > 0 && p[0] == '/' {
        seq!["/"@] + normal_parts(p)
    } else if leading_dot(p) {
        seq!["."@] + normal_parts(p)
    } else {
        normal_parts(p)
    }
}

fn normal_parts_of(v: &Vec<char>) -> (r: Vec<String>)
    ensures
        strs_m(r@) == normal_parts(v@),
{
    let n = v.len();
    let mut out: Vec<String> = Vec::new();
    let mut start: usize = 0;
    assert(v@.skip(0) =~= v@);
    assert(strs_m(out@) + normal_parts(v@.skip(0)) =~= normal_parts(v@));
    loop
        invariant
            start <= n,
            n == v.len(),
            strs_m(out@) + normal_parts(v@.skip(start as int)) == normal_parts(v@),
        decreases n - start,
    {
        let ghost rest = v@.skip(start as int);
        let mut k: usize = start;
        while k < n && v[k] != '/'
            invariant
                start <= k <= n,
                n == v.len(),
                find_char(v@, '/', start as int) == find_char(v@, '/', k as int),
            decreases n - k,
        {
            k = k + 1;
        }
        proof {
            lemma_find_char_skip(v@, '/', start as int, start as int);
            assert(find_char(rest, '/', 0) == k - start);
            assert(rest.take(k - start) =~= v@.subrange(start as int, k as int));
        }
        let ghost before = strs_m(out@);
        let ghost piece = v@.subrange(start as int, k as int);
        let is_dot = k - start == 1 && v[start] == '.';
        proof {
            reveal_strlit(".");
            if piece =~= "."@ {
                assert(is_dot);
            }
            if is_dot {
                assert(piece =~= "."@);
            }
        }
        if k > start && !is_dot {
            out.push(slice_string(v, start, k));
        }
        assert(strs_m(out@) =~= before + (if piece.len() > 0 && piece != "."@ { seq![piece] } else { Seq::<Seq<char>>::empty() }));
        if k >= n {
            proof {
                assert(v@.skip(n as int) =~= Seq::<char>::empty());
                assert(strs_m(out@) + normal_parts(v@.skip(n as int)) =~= before + normal_parts(rest));
            }
            assert(strs_m(out@) =~= normal_parts(v@));
            return out;
        }
        proof {
            assert(rest.skip(k - start + 1) =~= v@.skip(k + 1));
            assert(strs_m(out@) + normal_parts(v@.skip(k + 1)) =~= before + normal_parts(rest));
        }
        start = k + 1;
    }
}

/// The components of a path.
pub fn components(p: &str) -> (r: Vec<String>)
    ensures
        strs_m(r@) == components_of(p@),
{
    let v = chars_of(p);
    let parts = normal_parts_of(&v);
    proof {
        reveal_strlit("/");
        reveal_strlit(".");
    }
    if v.len() > 0 && v[0] == '/' {
        let mut r: Vec<String> = Vec::new();
        r.push(owned("/"));
        let mut parts = parts;
        let ghost pm = strs_m(parts@);
        r.append(&mut parts);
        assert(strs_m(r@) =~= seq!["/"@] + pm);
        r
    } else if (v.len() == 1 && v[0] == '.') || (v.len() >= 2 && v[0] == '.' && v[1] == '/') {
        let mut r: Vec<String> = Vec::new();
        r.push(owned("."));
        let mut parts = parts;
        let ghost pm = strs_m(parts@);
        r.append(&mut parts);
        assert(strs_m(r@) =~= seq!["."@] + pm);
        r
    } else {
        parts
    }
}

/// A component that names a file or folder (not the root, `.` or `..`).
pub open spec fn is_name(c: Seq<char>) -> bool {
    c != "/"@ && c != "."@ && c != ".."@
}

/// The last name of a path (`Path::file_name`), if it ends with one.
pub open spec fn file_name_of(p: Seq<char>) -> Option<Seq<char>> {
    let c = components_of(p);
    if c.len() > 0 && is_name(c.last()) { Some(c.last()) } else { None }
}

/// The last name of a path, or `fallback` when it has none.
pub fn file_name_or(p: &str, fallback: &str) -> (r: String)
    ensures
        r@ == (match file_name_of(p@) {
            Some(n) => n,
            None => fallback@,
        }),
{
    let c = components(p);
    if c.len() > 0 {
        let last = c[c.len() - 1].as_str();
        if !crate::text::str_eq(last, "/") && !crate::text::str_eq(last, ".") && !crate::text::str_eq(last, "..") {
            return owned(last);
        }
    }
    owned(fallback)
}

/// `a` lies at or below `b` (`Path::starts_with`, component by component).
pub open spec fn path_starts_with(a: Seq<char>, b: Seq<char>) -> bool {
    let ca = components_of(a);
    let cb = components_of(b);
    cb.len() <= ca.len() && ca.take(cb.len() as int) == cb
}

pub fn starts_with(a: &str, b: &str) -> (r: bool)
    ensures
        r == path_starts_with(a@, b@),
{
    let ca = components(a);
    let cb = components(b);
    if cb.len() > ca.len() {
        return false;
    }
    let mut i: usize = 0;
    while i < cb.len()
        invariant
            i <= cb.len() <= ca.len(),
            strs_m(ca@) == components_of(a@),
            strs_m(cb@) == components_of(b@),
            forall|j: int| 0 <= j < i ==> ca@[j]@ == cb@[j]@,
        decreases cb.len() - i,
    {
        if !crate::text::str_eq(ca[i].as_str(), cb[i].as_str()) {
            assert(strs_m(ca@).take(cb.len() as int)[i as int] == ca@[i as int]@);
            assert(strs_m(cb@)[i as int] == cb@[i as int]@);
            assert(strs_m(ca@).take(cb.len() as int) != strs_m(cb@));
            return false;
        }
        i = i + 1;
    }
    assert(strs_m(ca@).take(cb.len() as int) =~= strs_m(cb@));
    true
}


// ── Laws ─────────────────────────────────────────────────────────────────────

/// Every path lies within itself.
pub proof fn law_starts_with_self(p: Seq<char>)
    ensures
        path_starts_with(p, p),
{
    assert(components_of(p).take(components_of(p).len() as int) =~= components_of(p));
}

} // verus!
