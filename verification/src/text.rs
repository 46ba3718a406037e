//! Character-level helpers shared by the parser, the checkers and the emitters.

use vstd::prelude::*;
use crate::model::strs_m;

verus! {

/// Appends one character to a string (std `String::push`).
/// Trusted: the std documentation states that `push` appends the given `char`
/// to the end of the string; nothing else about the string changes.
#[verifier::external_body]
pub(crate) fn push_char(s: &mut String, c: char)
    ensures
        final(s)@ == old(s)@.push(c),
{
    s.push(c);
}

/// Builds an owned string from a character vector.
pub(crate) fn string_from_chars(v: &Vec<char>) -> (s: String)
    ensures
        s@ == v@,
{
    let mut s = String::new();
    let mut i: usize = 0;
    while i < v.len()
        invariant
            i <= v.len(),
            s@ == v@.take(i as int),
        decreases v.len() - i,
    {
        push_char(&mut s, v[i]);
        assert(v@.take(i + 1) =~= v@.take(i as int).push(v@[i as int]));
        i = i + 1;
    }
    assert(v@.take(v.len() as int) =~= v@);
    s
}

/// The characters of a string slice, in order.
pub fn chars_of(s: &str) -> (v: Vec<char>)
    ensures
        v@ == s@,
{
    let mut v: Vec<char> = Vec::new();
    for c in it: s.chars()
        invariant
            v@ == it.seq().take(it.index() as int),
            it.seq() == s@,
    {
        v.push(c);
    }
    v
}

/// An owned copy of a string slice.
pub fn owned(s: &str) -> (r: String)
    ensures
        r@ == s@,
{
    s.to_owned()
}

/// Character-wise equality of two string slices.
pub fn str_eq(a: &str, b: &str) -> (r: bool)
    ensures
        r == (a@ == b@),
{
    let x = a.to_owned();
    let y = b.to_owned();
    x == y
}

/// A fresh string holding `a` followed by `b`.
pub fn concat(a: &str, b: &str) -> (r: String)
    ensures
        r@ == a@ + b@,
{
    let mut r = a.to_owned();
    r.append(b);
    r
}

/// A fresh string holding the characters of `v[from..to]`.
pub fn slice_string(v: &Vec<char>, from: usize, to: usize) -> (r: String)
    requires
        from <= to <= v.len(),
    ensures
        r@ == v@.subrange(from as int, to as int),
{
    let mut out: Vec<char> = Vec::new();
    let mut i: usize = from;
    while i < to
        invariant
            from <= i <= to <= v.len(),
            out@ == v@.subrange(from as int, i as int),
        decreases to - i,
    {
        out.push(v[i]);
        i = i + 1;
    }
    string_from_chars(&out)
}

// ── Decimal rendering ────────────────────────────────────────────────────────

/// The decimal digit character for `d < 10`.
pub open spec fn digit_char(d: nat) -> char {
    if d == 0 { '0' } else if d == 1 { '1' } else if d == 2 { '2' } else if d == 3 { '3' }
    else if d == 4 { '4' } else if d == 5 { '5' } else if d == 6 { '6' } else if d == 7 { '7' }
    else if d == 8 { '8' } else { '9' }
}

/// The decimal notation of a natural number, without leading zeros.
pub open spec fn decimal(n: nat) -> Seq<char>
    decreases n,
{
    if n < 10 {
        seq![digit_char(n)]
    } else {
        decimal(n / 10).push(digit_char(n % 10))
    }
}

/// The decimal notation of an integer, with a leading `-` when negative.
pub open spec fn decimal_int(n: int) -> Seq<char> {
    if n < 0 {
        seq!['-'] + decimal((-n) as nat)
    } else {
        decimal(n as nat)
    }
}

fn digit_of(d: u64) -> (c: char)
    requires
        d < 10,
    ensures
        c == digit_char(d as nat),
{
    if d == 0 { '0' } else if d == 1 { '1' } else if d == 2 { '2' } else if d == 3 { '3' }
    else if d == 4 { '4' } else if d == 5 { '5' } else if d == 6 { '6' } else if d == 7 { '7' }
    else if d == 8 { '8' } else { '9' }
}

/// Decimal rendering of an unsigned 64-bit number (as `to_string` does).
pub fn u64_to_string(n: u64) -> (s: String)
    ensures
        s@ == decimal(n as nat),
    decreases n,
{
    if n < 10 {
        let mut s = String::new();
        push_char(&mut s, digit_of(n));
        s
    } else {
        let mut s = u64_to_string(n / 10);
        push_char(&mut s, digit_of(n % 10));
        s
    }
}

/// Decimal rendering of a `usize` (as `to_string` does).
pub fn usize_to_string(n: usize) -> (s: String)
    ensures
        s@ == decimal(n as nat),
{
    u64_to_string(n as u64)
}

/// Decimal rendering of a signed 64-bit number (as `to_string` does).
pub fn i64_to_string(n: i64) -> (s: String)
    ensures
        s@ == decimal_int(n as int),
{
    if n < 0 {
        let m: u64 = ((-(n + 1)) as u64) + 1;
        let digits = u64_to_string(m);
        let mut s = String::new();
        push_char(&mut s, '-');
        s.append(digits.as_str());
        s
    } else {
        u64_to_string(n as u64)
    }
}

// ── Whitespace ───────────────────────────────────────────────────────────────

/// Unicode `White_Space`, the set that `char::is_whitespace` tests.
pub open spec fn is_ws(c: char) -> bool {
    ||| ('\u{9}' <= c && c <= '\u{d}')
    ||| c == ' '
    ||| c == '\u{85}'
    ||| c == '\u{a0}'
    ||| c == '\u{1680}'
    ||| ('\u{2000}' <= c && c <= '\u{200a}')
    ||| c == '\u{2028}'
    ||| c == '\u{2029}'
    ||| c == '\u{202f}'
    ||| c == '\u{205f}'
    ||| c == '\u{3000}'
}

/// Whitespace test on one character.
pub fn is_whitespace(c: char) -> (r: bool)
    ensures
        r == is_ws(c),
{
    ('\u{9}' <= c && c <= '\u{d}') || c == ' ' || c == '\u{85}' || c == '\u{a0}'
        || c == '\u{1680}' || ('\u{2000}' <= c && c <= '\u{200a}') || c == '\u{2028}'
        || c == '\u{2029}' || c == '\u{202f}' || c == '\u{205f}' || c == '\u{3000}'
}

/// Every character of `s` is whitespace (so `trim` leaves nothing).
pub open spec fn all_ws(s: Seq<char>) -> bool {
    forall|i: int| 0 <= i < s.len() ==> is_ws(#[trigger] s[i])
}

/// Number of leading whitespace characters.
pub open spec fn lead_ws(s: Seq<char>) -> nat
    decreases s.len(),
{
    if s.len() > 0 && is_ws(s[0]) { 1 + lead_ws(s.drop_first()) } else { 0 }
}

/// Number of trailing whitespace characters.
pub open spec fn trail_ws(s: Seq<char>) -> nat
    decreases s.len(),
{
    if s.len() > 0 && is_ws(s.last()) { 1 + trail_ws(s.drop_last()) } else { 0 }
}

/// `str::trim_start`.
pub open spec fn trim_start(s: Seq<char>) -> Seq<char> {
    s.subrange(lead_ws(s) as int, s.len() as int)
}

/// `str::trim_end`.
pub open spec fn trim_end(s: Seq<char>) -> Seq<char> {
    s.subrange(0, s.len() - trail_ws(s))
}

/// `str::trim`.
pub open spec fn trim(s: Seq<char>) -> Seq<char> {
    trim_end(trim_start(s))
}

pub proof fn lemma_lead_ws_bound(s: Seq<char>)
    ensures
        lead_ws(s) <= s.len(),
        forall|i: int| 0 <= i < lead_ws(s) ==> is_ws(#[trigger] s[i]),
        lead_ws(s) < s.len() ==> !is_ws(s[lead_ws(s) as int]),
    decreases s.len(),
{
    if s.len() > 0 && is_ws(s[0]) {
        lemma_lead_ws_bound(s.drop_first());
        assert forall|i: int| 0 <= i < lead_ws(s) implies is_ws(#[trigger] s[i]) by {
            if i > 0 {
                assert(s[i] == s.drop_first()[i - 1]);
            }
        }
    }
}

pub proof fn lemma_trail_ws_bound(s: Seq<char>)
    ensures
        trail_ws(s) <= s.len(),
        forall|i: int| s.len() - trail_ws(s) <= i < s.len() ==> is_ws(#[trigger] s[i]),
        trail_ws(s) < s.len() ==> !is_ws(s[s.len() - trail_ws(s) - 1]),
    decreases s.len(),
{
    if s.len() > 0 && is_ws(s.last()) {
        lemma_trail_ws_bound(s.drop_last());
        assert forall|i: int| s.len() - trail_ws(s) <= i < s.len() implies is_ws(#[trigger] s[i]) by {
            if i < s.len() - 1 {
                assert(s[i] == s.drop_last()[i]);
            }
        }
    }
}

/// Counts the leading whitespace characters of `v[from..to]`.
pub fn count_lead_ws(v: &Vec<char>, from: usize, to: usize) -> (n: usize)
    requires
        from <= to <= v.len(),
    ensures
        n == lead_ws(v@.subrange(from as int, to as int)),
{
    let ghost s = v@.subrange(from as int, to as int);
    let mut i: usize = from;
    while i < to && is_whitespace(v[i])
        invariant
            from <= i <= to <= v.len(),
            s == v@.subrange(from as int, to as int),
            lead_ws(s) == (i - from) + lead_ws(v@.subrange(i as int, to as int)),
        decreases to - i,
    {
        assert(v@.subrange(i as int, to as int).drop_first() =~= v@.subrange(i + 1, to as int));
        i = i + 1;
    }
    i - from
}

/// Counts the trailing whitespace characters of `v[from..to]`.
pub fn count_trail_ws(v: &Vec<char>, from: usize, to: usize) -> (n: usize)
    requires
        from <= to <= v.len(),
    ensures
        n == trail_ws(v@.subrange(from as int, to as int)),
        n <= to - from,
{
    let ghost s = v@.subrange(from as int, to as int);
    let mut j: usize = to;
    while j > from && is_whitespace(v[j - 1])
        invariant
            from <= j <= to <= v.len(),
            s == v@.subrange(from as int, to as int),
            trail_ws(s) == (to - j) + trail_ws(v@.subrange(from as int, j as int)),
        decreases j - from,
    {
        assert(v@.subrange(from as int, j as int).drop_last() =~= v@.subrange(from as int, j - 1));
        j = j - 1;
    }
    proof { lemma_trail_ws_bound(s); }
    to - j
}

/// `trim` of a character range, as a fresh string.
pub fn trimmed(v: &Vec<char>, from: usize, to: usize) -> (r: String)
    requires
        from <= to <= v.len(),
    ensures
        r@ == trim(v@.subrange(from as int, to as int)),
{
    let ghost s = v@.subrange(from as int, to as int);
    let a = count_lead_ws(v, from, to);
    proof { lemma_lead_ws_bound(s); }
    let start = from + a;
    let b = count_trail_ws(v, start, to);
    assert(trim_start(s) =~= v@.subrange(start as int, to as int));
    assert(trim(s) =~= v@.subrange(start as int, (to - b) as int));
    slice_string(v, start, to - b)
}

} // verus!

verus! {

/// Membership of a string in a list, by characters.
pub fn contains_str(v: &Vec<String>, x: &str) -> (r: bool)
    ensures
        r == strs_m(v@).contains(x@),
{
    let mut i: usize = 0;
    while i < v.len()
        invariant
            i <= v.len(),
            forall|j: int| 0 <= j < i ==> v@[j]@ != x@,
        decreases v.len() - i,
    {
        if str_eq(v[i].as_str(), x) {
            assert(strs_m(v@)[i as int] == x@);
            return true;
        }
        i = i + 1;
    }
    assert forall|j: int| 0 <= j < strs_m(v@).len() implies strs_m(v@)[j] != x@ by {
        assert(strs_m(v@)[j] == v@[j]@);
    }
    false
}

/// An owned copy of every string of a list.
pub fn copy_strs(v: &Vec<String>) -> (r: Vec<String>)
    ensures
        strs_m(r@) == strs_m(v@),
{
    let mut r: Vec<String> = Vec::new();
    let mut i: usize = 0;
    while i < v.len()
        invariant
            i <= v.len(),
            strs_m(r@) == strs_m(v@).take(i as int),
        decreases v.len() - i,
    {
        let ghost before = strs_m(r@);
        r.push(owned(v[i].as_str()));
        assert(strs_m(r@) =~= before.push(v@[i as int]@));
        assert(strs_m(v@).take(i + 1) =~= strs_m(v@).take(i as int).push(v@[i as int]@));
        i = i + 1;
    }
    assert(strs_m(v@).take(v.len() as int) =~= strs_m(v@));
    r
}

/// The strings of `s` without repeats, each where it first occurs.
pub open spec fn dedup(s: Seq<Seq<char>>) -> Seq<Seq<char>>
    decreases s.len(),
{
    if s.len() == 0 {
        s
    } else {
        let r = dedup(s.drop_last());
        if r.contains(s.last()) { r } else { r.push(s.last()) }
    }
}

/// The strings of a list without repeats, in first-occurrence order.
pub fn dedup_strs(v: &Vec<String>) -> (r: Vec<String>)
    ensures
        strs_m(r@) == dedup(strs_m(v@)),
{
    let ghost s = strs_m(v@);
    let mut r: Vec<String> = Vec::new();
    let mut i: usize = 0;
    while i < v.len()
        invariant
            i <= v.len(),
            s == strs_m(v@),
            strs_m(r@) == dedup(s.take(i as int)),
        decreases v.len() - i,
    {
        assert(s.take(i + 1).drop_last() =~= s.take(i as int));
        assert(s.take(i + 1).last() == v@[i as int]@);
        if !contains_str(&r, v[i].as_str()) {
            let ghost before = strs_m(r@);
            r.push(owned(v[i].as_str()));
            assert(strs_m(r@) =~= before.push(v@[i as int]@));
        }
        i = i + 1;
    }
    assert(s.take(v.len() as int) =~= s);
    r
}

// ── Lines ────────────────────────────────────────────────────────────────────

/// The first index at or after `k` that holds `c`, or the length.
pub open spec fn find_char(s: Seq<char>, c: char, k: int) -> int
    decreases s.len() - k,
{
    if 0 <= k < s.len() && s[k] != c { find_char(s, c, k + 1) } else { k }
}

pub proof fn lemma_find_char(s: Seq<char>, c: char, k: int)
    requires
        0 <= k <= s.len(),
    ensures
        k <= find_char(s, c, k) <= s.len(),
        forall|t: int| k <= t < find_char(s, c, k) ==> s[t] != c,
        find_char(s, c, k) < s.len() ==> s[find_char(s, c, k)] == c,
    decreases s.len() - k,
{
    if k < s.len() && s[k] != c {
        lemma_find_char(s, c, k + 1);
    }
}

/// A line without the `\r` of a `\r\n` ending.
pub open spec fn strip_cr(x: Seq<char>) -> Seq<char> {
    if x.len() > 0 && x.last() == '\r' { x.drop_last() } else { x }
}

/// The lines of a text as `str::lines` gives them: split at `\n`, a `\r`
/// before the `\n` dropped, and no empty line after a final newline.
pub open spec fn lines_of(s: Seq<char>) -> Seq<Seq<char>>
    decreases s.len(),
{
    if s.len() == 0 {
        Seq::empty()
    } else {
        let k = find_char(s, '\n', 0);
        proof { lemma_find_char(s, '\n', 0); }
        if k >= s.len() {
            seq![s]
        } else {
            seq![strip_cr(s.subrange(0, k))] + lines_of(s.skip(k + 1))
        }
    }
}

/// The scan of `find_char` is the same on a suffix.
pub proof fn lemma_find_char_skip(s: Seq<char>, c: char, start: int, k: int)
    requires
        0 <= start <= k <= s.len(),
    ensures
        find_char(s.skip(start), c, k - start) == find_char(s, c, k) - start,
    decreases s.len() - k,
{
    if k < s.len() && s[k] != c {
        lemma_find_char_skip(s, c, start, k + 1);
    }
}


pub open spec fn lines_m(v: Seq<Vec<char>>) -> Seq<Seq<char>> {
    v.map_values(|l: Vec<char>| l@)
}

/// The lines of a text, as `str::lines` gives them.
pub fn split_lines(s: &str) -> (r: Vec<Vec<char>>)
    ensures
        lines_m(r@) == lines_of(s@),
{
    let v = chars_of(s);
    let n = v.len();
    let mut out: Vec<Vec<char>> = Vec::new();
    let mut start: usize = 0;
    assert(v@.skip(0) =~= v@);
    assert(lines_m(out@) + lines_of(v@.skip(0)) =~= lines_of(v@));
    while start < n
        invariant
            start <= n,
            n == v.len(),
            v@ == s@,
            lines_m(out@) + lines_of(v@.skip(start as int)) == lines_of(v@),
        decreases n - start,
    {
        let ghost rest = v@.skip(start as int);
        let mut k: usize = start;
        while k < n && v[k] != '\n'
            invariant
                start <= k <= n,
                n == v.len(),
                find_char(v@, '\n', start as int) == find_char(v@, '\n', k as int),
            decreases n - k,
        {
            k = k + 1;
        }
        proof {
            lemma_find_char_skip(v@, '\n', start as int, start as int);
            assert(find_char(rest, '\n', 0) == k - start);
        }
        let ghost before = lines_m(out@);
        let end = if k < n && k > start && v[k - 1] == '\r' { k - 1 } else { k };
        let mut line: Vec<char> = Vec::new();
        let mut j: usize = start;
        while j < end
            invariant
                start <= j <= end <= n,
                n == v.len(),
                line@ == v@.subrange(start as int, j as int),
            decreases end - j,
        {
            line.push(v[j]);
            assert(line@ =~= v@.subrange(start as int, j + 1));
            j = j + 1;
        }
        out.push(line);
        assert(lines_m(out@) =~= before.push(v@.subrange(start as int, end as int)));
        if k >= n {
            proof {
                assert(v@.subrange(start as int, n as int) =~= rest);
                assert(lines_of(rest) == seq![rest]);
                assert(v@.skip(n as int) =~= Seq::<char>::empty());
                assert(lines_m(out@) + lines_of(v@.skip(n as int)) =~= before + lines_of(rest));
            }
            start = n;
        } else {
            proof {
                let l = rest.subrange(0, k - start);
                assert(l =~= v@.subrange(start as int, k as int));
                assert(strip_cr(l) =~= v@.subrange(start as int, end as int));
                assert(rest.skip(k - start + 1) =~= v@.skip(k + 1));
                assert(lines_of(rest) == seq![strip_cr(l)] + lines_of(v@.skip(k + 1)));
                assert(lines_m(out@) + lines_of(v@.skip(k + 1)) =~= before + lines_of(rest));
            }
            start = k + 1;
        }
    }
    assert(v@.skip(n as int) =~= Seq::<char>::empty());
    assert(lines_m(out@) + Seq::<Seq<char>>::empty() =~= lines_m(out@));
    out
}

// ── UTF-8 lengths ────────────────────────────────────────────────────────────

/// The number of bytes of a character in UTF-8.
pub open spec fn utf8_len(c: char) -> nat {
    if (c as u32) < 0x80 {
        1
    } else if (c as u32) < 0x800 {
        2
    } else if (c as u32) < 0x10000 {
        3
    } else {
        4
    }
}

/// The number of bytes of a text in UTF-8 (what `str::len` counts).
pub open spec fn utf8_bytes(s: Seq<char>) -> nat
    decreases s.len(),
{
    if s.len() == 0 { 0 } else { utf8_bytes(s.drop_last()) + utf8_len(s.last()) }
}

pub proof fn lemma_utf8_concat(a: Seq<char>, b: Seq<char>)
    ensures
        utf8_bytes(a + b) == utf8_bytes(a) + utf8_bytes(b),
    decreases b.len(),
{
    if b.len() == 0 {
        assert(a + b =~= a);
    } else {
        assert((a + b).drop_last() =~= a + b.drop_last());
        lemma_utf8_concat(a, b.drop_last());
    }
}

pub proof fn lemma_utf8_sub(s: Seq<char>, i: int, j: int)
    requires
        0 <= i <= j <= s.len(),
    ensures
        utf8_bytes(s.subrange(i, j)) <= utf8_bytes(s),
{
    lemma_utf8_concat(s.subrange(0, i), s.subrange(i, j));
    lemma_utf8_concat(s.subrange(0, i) + s.subrange(i, j), s.subrange(j, s.len() as int));
    assert(s.subrange(0, i) + s.subrange(i, j) + s.subrange(j, s.len() as int) =~= s);
}

/// Every line of a text is no longer in bytes than the text.
pub proof fn lemma_lines_bytes(s: Seq<char>)
    ensures
        forall|k: int| 0 <= k < lines_of(s).len() ==> utf8_bytes(#[trigger] lines_of(s)[k]) <= utf8_bytes(s),
    decreases s.len(),
{
    if s.len() > 0 {
        let c = find_char(s, '\n', 0);
        lemma_find_char(s, '\n', 0);
        if c < s.len() {
            lemma_lines_bytes(s.skip(c + 1));
            lemma_utf8_sub(s, c + 1, s.len() as int);
            assert(s.skip(c + 1) =~= s.subrange(c + 1, s.len() as int));
            lemma_utf8_sub(s, 0, c);
            let l = s.subrange(0, c);
            if l.len() > 0 && l.last() == '\r' {
                lemma_utf8_sub(s, 0, c - 1);
                assert(l.drop_last() =~= s.subrange(0, c - 1));
            }
            let ls = lines_of(s);
            assert(ls == seq![strip_cr(l)] + lines_of(s.skip(c + 1)));
            assert forall|k: int| 0 <= k < ls.len() implies utf8_bytes(#[trigger] ls[k]) <= utf8_bytes(s) by {
                if k > 0 {
                    assert(ls[k] == lines_of(s.skip(c + 1))[k - 1]);
                }
            }
        }
    }
}

fn char_utf8_len(c: char) -> (n: usize)
    ensures
        n == utf8_len(c),
{
    let u = c as u32;
    if u < 0x80 {
        1
    } else if u < 0x800 {
        2
    } else if u < 0x10000 {
        3
    } else {
        4
    }
}

/// The bytes of a line's leading whitespace (as `len() - trim_start().len()`).
pub open spec fn indent_bytes(l: Seq<char>) -> nat {
    utf8_bytes(l.take(lead_ws(l) as int))
}

pub fn indent_of(line: &Vec<char>) -> (n: usize)
    requires
        utf8_bytes(line@) <= isize::MAX,
    ensures
        n == indent_bytes(line@),
{
    let ghost l = line@;
    proof { lemma_lead_ws_bound(l); }
    let mut i: usize = 0;
    let mut n: usize = 0;
    assert(l.take(0) =~= Seq::<char>::empty());
    assert(l.subrange(0, l.len() as int) =~= l);
    while i < line.len() && is_whitespace(line[i])
        invariant
            i <= line.len(),
            l == line@,
            utf8_bytes(l) <= isize::MAX,
            n == utf8_bytes(l.take(i as int)),
            lead_ws(l) == i + lead_ws(l.subrange(i as int, l.len() as int)),
        decreases line.len() - i,
    {
        assert(l.subrange(i as int, l.len() as int).drop_first() =~= l.subrange(i + 1, l.len() as int));
        assert(l.take(i + 1).drop_last() =~= l.take(i as int));
        proof { lemma_utf8_sub(l, 0, i + 1); }
        assert(l.take(i + 1) =~= l.subrange(0, i + 1));
        n = n + char_utf8_len(line[i]);
        i = i + 1;
    }
    assert(lead_ws(l.subrange(i as int, l.len() as int)) == 0);
    n
}


/// The bounds of the trimmed part of `v[from..to]`.
pub fn trim_range(v: &Vec<char>, from: usize, to: usize) -> (r: (usize, usize))
    requires
        from <= to <= v.len(),
    ensures
        from <= r.0 <= r.1 <= to,
        v@.subrange(r.0 as int, r.1 as int) == trim(v@.subrange(from as int, to as int)),
{
    let ghost s = v@.subrange(from as int, to as int);
    let a = count_lead_ws(v, from, to);
    proof { lemma_lead_ws_bound(s); }
    let start = from + a;
    let b = count_trail_ws(v, start, to);
    assert(trim_start(s) =~= v@.subrange(start as int, to as int));
    assert(trim(s) =~= v@.subrange(start as int, (to - b) as int));
    (start, to - b)
}

/// A fresh vector holding `v[from..to]`.
pub fn sub_vec(v: &Vec<char>, from: usize, to: usize) -> (r: Vec<char>)
    requires
        from <= to <= v.len(),
    ensures
        r@ == v@.subrange(from as int, to as int),
{
    let mut out: Vec<char> = Vec::new();
    let mut i: usize = from;
    while i < to
        invariant
            from <= i <= to <= v.len(),
            out@ == v@.subrange(from as int, i as int),
        decreases to - i,
    {
        out.push(v[i]);
        assert(out@ =~= v@.subrange(from as int, i + 1));
        i = i + 1;
    }
    out
}

// ── Filling a template ───────────────────────────────────────────────────────

/// The value of a decimal digit character.
pub open spec fn digit_val(c: char) -> int {
    (c as int) - ('0' as int)
}

/// A template with its holes filled: `{k}` (one digit, `k` below the number
/// of arguments) becomes argument `k`, `{{` becomes `{`, `}}` becomes `}`, and
/// every other character stands for itself.
pub open spec fn render(t: Seq<char>, a: Seq<Seq<char>>) -> Seq<char>
    decreases t.len(),
{
    if t.len() == 0 {
        Seq::empty()
    } else if t.len() >= 2 && t[0] == '{' && t[1] == '{' {
        seq!['{'] + render(t.skip(2), a)
    } else if t.len() >= 2 && t[0] == '}' && t[1] == '}' {
        seq!['}'] + render(t.skip(2), a)
    } else if t.len() >= 3 && t[0] == '{' && '0' <= t[1] && t[1] <= '9' && t[2] == '}' && digit_val(t[1]) < a.len() {
        a[digit_val(t[1])] + render(t.skip(3), a)
    } else {
        seq![t[0]] + render(t.skip(1), a)
    }
}

pub fn render_template(t: &str, a: &Vec<String>) -> (r: String)
    ensures
        r@ == render(t@, strs_m(a@)),
{
    let ghost args = strs_m(a@);
    let v = chars_of(t);
    let n = v.len();
    let mut out = String::new();
    let mut i: usize = 0;
    assert(v@.skip(0) =~= v@);
    while i < n
        invariant
            i <= n,
            n == v.len(),
            v@ == t@,
            args == strs_m(a@),
            out@ + render(v@.skip(i as int), args) == render(v@, args),
        decreases n - i,
    {
        let ghost rest = v@.skip(i as int);
        assert(rest[0] == v@[i as int]);
        assert(rest.len() >= 2 ==> rest[1] == v@[i + 1]);
        assert(rest.len() >= 3 ==> rest[2] == v@[i + 2]);
        if n - i > 1 && v[i] == '{' && v[i + 1] == '{' {
            assert(rest.skip(2) =~= v@.skip(i + 2));
            let ghost before = out@;
            push_char(&mut out, '{');
            assert(out@ + render(v@.skip(i + 2), args) =~= before + render(rest, args));
            i = i + 2;
        } else if n - i > 1 && v[i] == '}' && v[i + 1] == '}' {
            assert(rest.skip(2) =~= v@.skip(i + 2));
            let ghost before = out@;
            push_char(&mut out, '}');
            assert(out@ + render(v@.skip(i + 2), args) =~= before + render(rest, args));
            i = i + 2;
        } else if n - i > 2 && v[i] == '{' && '0' <= v[i + 1] && v[i + 1] <= '9' && v[i + 2] == '}'
            && ((v[i + 1] as u32 - '0' as u32) as usize) < a.len() {
            let k: usize = (v[i + 1] as u32 - '0' as u32) as usize;
            assert(k == digit_val(v@[i + 1]));
            assert(rest.skip(3) =~= v@.skip(i + 3));
            let ghost before = out@;
            out.append(a[k].as_str());
            assert(args[k as int] == a@[k as int]@);
            assert(out@ + render(v@.skip(i + 3), args) =~= before + render(rest, args));
            i = i + 3;
        } else {
            assert(rest.skip(1) =~= v@.skip(i + 1));
            let ghost before = out@;
            push_char(&mut out, v[i]);
            assert(out@ + render(v@.skip(i + 1), args) =~= before + render(rest, args));
            i = i + 1;
        }
    }
    assert(v@.skip(n as int) =~= Seq::<char>::empty());
    assert(out@ + Seq::<char>::empty() =~= out@);
    out
}


/// The first `c` at or after `k` in `a` is found at the same place in `a + b`.
pub proof fn lemma_find_char_prefix(a: Seq<char>, b: Seq<char>, c: char, k: int)
    requires
        0 <= k <= a.len(),
        find_char(a, c, k) < a.len(),
    ensures
        find_char(a + b, c, k) == find_char(a, c, k),
    decreases a.len() - k,
{
    if a[k] != c {
        lemma_find_char_prefix(a, b, c, k + 1);
    }
}

/// A text without `c` has none to find.
pub proof fn lemma_find_char_none(a: Seq<char>, b: Seq<char>, c: char, k: int)
    requires
        0 <= k <= a.len(),
        !a.contains(c),
    ensures
        find_char(a + b, c, k) == a.len() + find_char(b, c, 0),
    decreases a.len() - k,
{
    if k < a.len() {
        assert((a + b)[k] == a[k]);
        assert(a[k] != c);
        lemma_find_char_none(a, b, c, k + 1);
    } else {
        lemma_find_char_shift(a, b, c, 0);
    }
}

proof fn lemma_find_char_shift(a: Seq<char>, b: Seq<char>, c: char, k: int)
    requires
        0 <= k <= b.len(),
    ensures
        find_char(a + b, c, a.len() + k) == a.len() + find_char(b, c, k),
    decreases b.len() - k,
{
    if k < b.len() {
        assert((a + b)[a.len() + k] == b[k]);
        lemma_find_char_shift(a, b, c, k + 1);
    }
}

/// The lines of two texts joined after a line break are the lines of each.
pub proof fn lemma_lines_concat(a: Seq<char>, b: Seq<char>)
    requires
        a.len() == 0 || a.last() == '\n',
    ensures
        lines_of(a + b) == lines_of(a) + lines_of(b),
    decreases a.len(),
{
    if a.len() == 0 {
        assert(a + b =~= b);
    } else {
        lemma_find_char(a, '\n', 0);
        let k = find_char(a, '\n', 0);
        assert(k < a.len()) by {
            if k >= a.len() {
                assert(a[a.len() - 1] == '\n');
            }
        }
        lemma_find_char_prefix(a, b, '\n', 0);
        let rest = a.skip(k + 1);
        assert((a + b).subrange(0, k) =~= a.subrange(0, k));
        assert((a + b).skip(k + 1) =~= rest + b);
        if rest.len() > 0 {
            assert(rest.last() == a.last());
        }
        lemma_lines_concat(rest, b);
    }
}

/// A line without a break, followed by a break or by the end of the text, is
/// one line of its own.
pub proof fn lemma_lines_line(l: Seq<char>, b: Seq<char>)
    requires
        !l.contains('\n'),
        l.len() > 0 || b.len() > 0,
        b.len() == 0 || b[0] == '\n',
    ensures
        b.len() == 0 ==> lines_of(l + b) == seq![l],
        b.len() > 0 ==> lines_of(l + b) == seq![strip_cr(l)] + lines_of(b.skip(1)),
{
    lemma_find_char_none(l, b, '\n', 0);
    lemma_find_char(b, '\n', 0);
    if b.len() == 0 {
        assert(l + b =~= l);
        assert(find_char(l, '\n', 0) == l.len()) by { assert(l + b =~= l); }
    } else {
        assert(find_char(b, '\n', 0) == 0);
        assert((l + b).subrange(0, l.len() as int) =~= l);
        assert((l + b).skip(l.len() as int + 1) =~= b.skip(1));
    }
}

/// A text without braces: a template that renders as itself.
pub open spec fn brace_free(t: Seq<char>) -> bool {
    forall|i: int| 0 <= i < t.len() ==> #[trigger] t[i] != '{' && t[i] != '}'
}

/// Text without braces at the front of a template is kept as it is.
pub proof fn lemma_render_plain_prefix(pre: Seq<char>, x: Seq<char>, a: Seq<Seq<char>>)
    requires
        brace_free(pre),
    ensures
        render(pre + x, a) == pre + render(x, a),
    decreases pre.len(),
{
    if pre.len() == 0 {
        assert(pre + x =~= x);
        assert(pre + render(x, a) =~= render(x, a));
    } else {
        let t = pre + x;
        assert(t[0] == pre[0]);
        assert(t.skip(1) =~= pre.skip(1) + x);
        assert(brace_free(pre.skip(1))) by {
            assert forall|i: int| 0 <= i < pre.skip(1).len() implies #[trigger] pre.skip(1)[i] != '{' && pre.skip(1)[i] != '}' by {
                assert(pre.skip(1)[i] == pre[i + 1]);
            }
        }
        lemma_render_plain_prefix(pre.skip(1), x, a);
        assert(seq![pre[0]] + (pre.skip(1) + render(x, a)) =~= pre + render(x, a));
    }
}

/// A template without braces renders as itself.
pub proof fn lemma_render_plain(t: Seq<char>, a: Seq<Seq<char>>)
    requires
        brace_free(t),
    ensures
        render(t, a) == t,
{
    lemma_render_plain_prefix(t, Seq::empty(), a);
    assert(t + Seq::<char>::empty() =~= t);
}

/// `{0}` at the front of a template becomes the first argument.
pub proof fn lemma_render_hole(x: Seq<char>, a: Seq<Seq<char>>)
    requires
        a.len() >= 1,
    ensures
        render(seq!['{', '0', '}'] + x, a) == a[0] + render(x, a),
{
    let t = seq!['{', '0', '}'] + x;
    assert(t[0] == '{' && t[1] == '0' && t[2] == '}');
    assert(t.skip(3) =~= x);
}

/// `{k}` (one digit, `k` below the number of arguments) at the front of a
/// template becomes argument `k`.
pub proof fn lemma_render_digit(d: char, x: Seq<char>, a: Seq<Seq<char>>)
    requires
        '0' <= d <= '9',
        digit_val(d) < a.len(),
    ensures
        render(seq!['{', d, '}'] + x, a) == a[digit_val(d)] + render(x, a),
{
    let t = seq!['{', d, '}'] + x;
    assert(t[0] == '{' && t[1] == d && t[2] == '}');
    assert(t.skip(3) =~= x);
}

/// `{{` and `}}` at the front of a template become one brace.
pub proof fn lemma_render_escape(c: char, x: Seq<char>, a: Seq<Seq<char>>)
    requires
        c == '{' || c == '}',
    ensures
        render(seq![c, c] + x, a) == seq![c] + render(x, a),
{
    let t = seq![c, c] + x;
    assert(t[0] == c && t[1] == c);
    assert(t.skip(2) =~= x);
}

// ── Laws ─────────────────────────────────────────────────────────────────────

/// Removing repeats keeps every string once and adds none.
pub proof fn law_dedup(s: Seq<Seq<char>>)
    ensures
        forall|x: Seq<char>| dedup(s).contains(x) <==> s.contains(x),
        forall|i: int, j: int| 0 <= i < j < dedup(s).len() ==> dedup(s)[i] != dedup(s)[j],
    decreases s.len(),
{
    if s.len() > 0 {
        law_dedup(s.drop_last());
        let r = dedup(s.drop_last());
        assert forall|x: Seq<char>| dedup(s).contains(x) <==> s.contains(x) by {
            if s.contains(x) {
                let k = choose|k: int| 0 <= k < s.len() && s[k] == x;
                if k < s.len() - 1 {
                    assert(s.drop_last()[k] == x);
                }
            }
            if s.drop_last().contains(x) {
                let k = choose|k: int| 0 <= k < s.drop_last().len() && s.drop_last()[k] == x;
                assert(s[k] == x);
            }
            if !r.contains(s.last()) {
                assert(r.push(s.last())[r.len() as int] == s.last());
                if r.contains(x) {
                    let k = choose|k: int| 0 <= k < r.len() && r[k] == x;
                    assert(r.push(s.last())[k] == x);
                }
                if r.push(s.last()).contains(x) {
                    let k = choose|k: int| 0 <= k < r.len() + 1 && r.push(s.last())[k] == x;
                    if k < r.len() {
                        assert(r[k] == x);
                    }
                }
            }
            if x == s.last() {
                assert(s[s.len() - 1] == x);
            }
        }
    }
}

/// No line of a text holds a newline.
pub proof fn law_lines_have_no_newline(s: Seq<char>)
    ensures
        forall|k: int, t: int| 0 <= k < lines_of(s).len() && 0 <= t < lines_of(s)[k].len() ==> lines_of(s)[k][t] != '\n',
    decreases s.len(),
{
    if s.len() > 0 {
        let c = find_char(s, '\n', 0);
        lemma_find_char(s, '\n', 0);
        if c < s.len() {
            law_lines_have_no_newline(s.skip(c + 1));
            let ls = lines_of(s);
            assert forall|k: int, t: int| 0 <= k < ls.len() && 0 <= t < ls[k].len() implies ls[k][t] != '\n' by {
                if k > 0 {
                    assert(ls[k] == lines_of(s.skip(c + 1))[k - 1]);
                } else {
                    assert(ls[0] == strip_cr(s.subrange(0, c)));
                    assert(s.subrange(0, c)[t] == s[t]);
                }
            }
        }
    }
}

} // verus!
