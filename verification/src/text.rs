//! Character-level text utilities shared by the engine's pure text
//! transforms: conversion between strings and character vectors, whitespace
//! trimming, substring search, and lexicographic comparison.

use vstd::prelude::*;

verus! {

/// The whitespace class the engine's trimming and splitting use: the
/// Unicode white-space characters.
pub open spec fn is_ws(c: char) -> bool {
    ||| c == ' '
    ||| c == '\t'
    ||| c == '\n'
    ||| c == '\r'
    ||| c == '\x0b'
    ||| c == '\x0c'
    ||| c == '\u{85}'
    ||| c == '\u{a0}'
    ||| c == '\u{1680}'
    ||| ('\u{2000}' <= c && c <= '\u{200a}')
    ||| c == '\u{2028}'
    ||| c == '\u{2029}'
    ||| c == '\u{202f}'
    ||| c == '\u{205f}'
    ||| c == '\u{3000}'
}

/// Exec mirror of [`is_ws`].
pub fn ws_char(c: char) -> (r: bool)
    ensures
        r == is_ws(c),
{
    c == ' ' || c == '\t' || c == '\n' || c == '\r' || c == '\x0b' || c == '\x0c'
        || c == '\u{85}' || c == '\u{a0}' || c == '\u{1680}' || ('\u{2000}' <= c && c
        <= '\u{200a}') || c == '\u{2028}' || c == '\u{2029}' || c == '\u{202f}' || c
        == '\u{205f}' || c == '\u{3000}'
}

/// The characters of a string, in order, as a vector.
pub fn chars_of(s: &str) -> (v: Vec<char>)
    ensures
        v@ == s@,
{
    let n = s.unicode_len();
    let mut v: Vec<char> = Vec::new();
    let mut i: usize = 0;
    while i < n
        invariant
            i <= n,
            n == s@.len(),
            v@ == s@.subrange(0, i as int),
        decreases n - i,
    {
        v.push(s.get_char(i));
        i = i + 1;
        proof {
            assert(v@ =~= s@.subrange(0, i as int));
        }
    }
    proof {
        assert(v@ =~= s@);
    }
    v
}

/// Relies on `core::iter::Iterator::collect` (via `String`'s `FromIterator`
/// impl): collecting characters yields the string of exactly those
/// characters, in order.
#[verifier::external_body]
pub fn string_from_chars(v: &Vec<char>) -> (s: String)
    ensures
        s@ == v@,
{
    v.iter().collect()
}

/// What `str::to_lowercase` returns: a function of the characters alone.
pub uninterp spec fn lower_of(s: Seq<char>) -> Seq<char>;

/// Relies on `str::to_lowercase`: the result depends on the input's
/// characters alone, and an empty input stays empty.
#[verifier::external_body]
pub fn lowercase(s: &str) -> (r: String)
    ensures
        r@ == lower_of(s@),
        s@.len() == 0 ==> r@.len() == 0,
{
    s.to_lowercase()
}

/// Whether `needle` occurs in `hay` starting at position `at`.
pub open spec fn matches_at(hay: Seq<char>, at: int, needle: Seq<char>) -> bool {
    &&& 0 <= at
    &&& at + needle.len() <= hay.len()
    &&& hay.subrange(at, at + needle.len()) == needle
}

/// Exec check of [`matches_at`] over character vectors.
pub fn check_match_at(hay: &Vec<char>, at: usize, needle: &Vec<char>) -> (r: bool)
    requires
        at <= hay@.len(),
    ensures
        r == matches_at(hay@, at as int, needle@),
{
    if hay.len() - at < needle.len() {
        return false;
    }
    let end: usize = at + needle.len();
    let mut j: usize = 0;
    while j < needle.len()
        invariant
            j <= needle@.len(),
            end == at + needle@.len(),
            at + needle@.len() <= hay@.len(),
            forall|k: int| 0 <= k < j ==> hay@[at + k] == needle@[k],
        decreases needle@.len() - j,
    {
        if hay[at + j] != needle[j] {
            assert(hay@.subrange(at as int, at + needle@.len())[j as int] != needle@[j as int]);
            return false;
        }
        j = j + 1;
    }
    proof {
        assert(hay@.subrange(at as int, at + needle@.len()) =~= needle@);
    }
    true
}

/// String equality at character level.
pub fn str_eq_exec(a: &str, b: &str) -> (r: bool)
    ensures
        r == (a@ == b@),
{
    let av = chars_of(a);
    let bv = chars_of(b);
    if av.len() != bv.len() {
        return false;
    }
    let r = check_match_at(&av, 0, &bv);
    proof {
        if r {
            assert(av@.subrange(0, bv@.len() as int) =~= av@);
        } else {
            assert(av@.subrange(0, bv@.len() as int) =~= av@);
        }
    }
    r
}

/// The string with leading whitespace removed.
pub open spec fn trim_start_spec(s: Seq<char>) -> Seq<char>
    decreases s.len(),
{
    if s.len() > 0 && is_ws(s[0]) {
        trim_start_spec(s.drop_first())
    } else {
        s
    }
}

/// The string with trailing whitespace removed.
pub open spec fn trim_end_spec(s: Seq<char>) -> Seq<char>
    decreases s.len(),
{
    if s.len() > 0 && is_ws(s[s.len() - 1]) {
        trim_end_spec(s.drop_last())
    } else {
        s
    }
}

/// The string with surrounding whitespace removed.
pub open spec fn trim_spec(s: Seq<char>) -> Seq<char> {
    trim_end_spec(trim_start_spec(s))
}

proof fn lemma_trim_start_skip(s: Seq<char>, k: int)
    requires
        0 <= k <= s.len(),
        forall|i: int| 0 <= i < k ==> is_ws(s[i]),
        k < s.len() ==> !is_ws(s[k]),
    ensures
        trim_start_spec(s) == s.subrange(k, s.len() as int),
    decreases k,
{
    if k == 0 {
        if s.len() > 0 && is_ws(s[0]) {
            assert(false);
        }
        assert(s.subrange(0, s.len() as int) =~= s);
    } else {
        assert(is_ws(s[0]));
        let t = s.drop_first();
        assert(forall|i: int| 0 <= i < k - 1 ==> is_ws(#[trigger] t[i]));
        lemma_trim_start_skip(t, k - 1);
        assert(t.subrange(k - 1, t.len() as int) =~= s.subrange(k, s.len() as int));
    }
}

proof fn lemma_trim_end_take(s: Seq<char>, k: int)
    requires
        0 <= k <= s.len(),
        forall|i: int| k <= i < s.len() ==> is_ws(s[i]),
        k > 0 ==> !is_ws(s[k - 1]),
    ensures
        trim_end_spec(s) == s.subrange(0, k),
    decreases s.len() - k,
{
    if k == s.len() {
        if s.len() > 0 && is_ws(s[s.len() - 1]) {
            assert(false);
        }
        assert(s.subrange(0, k) =~= s);
    } else {
        assert(is_ws(s[s.len() - 1]));
        let t = s.drop_last();
        lemma_trim_end_take(t, k);
        assert(t.subrange(0, k) =~= s.subrange(0, k));
    }
}

/// The index range that trimming leaves: `trim_spec(v@) == v@.subrange(lo, hi)`.
pub fn trim_range(v: &Vec<char>, from: usize, to: usize) -> (r: (usize, usize))
    requires
        from <= to <= v@.len(),
    ensures
        from <= r.0 <= r.1 <= to,
        trim_spec(v@.subrange(from as int, to as int)) == v@.subrange(r.0 as int, r.1 as int),
{
    let ghost s = v@.subrange(from as int, to as int);
    let mut lo: usize = from;
    while lo < to && ws_char(v[lo])
        invariant
            from <= lo <= to <= v@.len(),
            forall|i: int| from <= i < lo ==> is_ws(v@[i]),
        decreases to - lo,
    {
        lo = lo + 1;
    }
    let mut hi: usize = to;
    while hi > lo && ws_char(v[hi - 1])
        invariant
            lo <= hi <= to <= v@.len(),
            forall|i: int| hi <= i < to ==> is_ws(v@[i]),
        decreases hi,
    {
        hi = hi - 1;
    }
    proof {
        assert(forall|i: int| 0 <= i < lo - from ==> is_ws(#[trigger] s[i]));
        assert(lo - from < s.len() ==> !is_ws(s[lo - from]));
        lemma_trim_start_skip(s, lo - from);
        let t = s.subrange(lo - from, s.len() as int);
        assert(forall|i: int| hi - lo <= i < t.len() ==> is_ws(#[trigger] t[i]));
        assert(hi - lo > 0 ==> !is_ws(t[hi - lo - 1]));
        lemma_trim_end_take(t, hi - lo);
        assert(t.subrange(0, hi - lo) =~= v@.subrange(lo as int, hi as int));
    }
    (lo, hi)
}

/// Strict lexicographic order on character sequences, by code point.
pub open spec fn lex_lt(a: Seq<char>, b: Seq<char>) -> bool
    decreases a.len(),
{
    if b.len() == 0 {
        false
    } else if a.len() == 0 {
        true
    } else if a[0] != b[0] {
        a[0] < b[0]
    } else {
        lex_lt(a.drop_first(), b.drop_first())
    }
}

/// Lexicographic order is transitive.
pub proof fn lemma_lex_trans(a: Seq<char>, b: Seq<char>, c: Seq<char>)
    requires
        lex_lt(a, b),
        lex_lt(b, c),
    ensures
        lex_lt(a, c),
    decreases a.len() + b.len() + c.len(),
{
    if a.len() == 0 {
    } else if a[0] != b[0] {
        if b[0] != c[0] {
        } else {
        }
    } else {
        if b[0] != c[0] {
        } else {
            lemma_lex_trans(a.drop_first(), b.drop_first(), c.drop_first());
        }
    }
}

/// Lexicographic order is irreflexive.
pub proof fn lemma_lex_irrefl(a: Seq<char>)
    ensures
        !lex_lt(a, a),
    decreases a.len(),
{
    if a.len() > 0 {
        lemma_lex_irrefl(a.drop_first());
    }
}

/// Compares two character vectors lexicographically by code point.
pub fn lex_lt_chars(a: &Vec<char>, b: &Vec<char>) -> (r: bool)
    ensures
        r == lex_lt(a@, b@),
{
    let mut i: usize = 0;
    proof {
        assert(a@.subrange(0, a@.len() as int) =~= a@);
        assert(b@.subrange(0, b@.len() as int) =~= b@);
    }
    loop
        invariant
            i <= a@.len(),
            i <= b@.len(),
            forall|k: int| 0 <= k < i ==> a@[k] == b@[k],
            lex_lt(a@, b@) == lex_lt(a@.subrange(i as int, a@.len() as int), b@.subrange(
                i as int,
                b@.len() as int,
            )),
        decreases a@.len() - i,
    {
        let ghost ar = a@.subrange(i as int, a@.len() as int);
        let ghost br = b@.subrange(i as int, b@.len() as int);
        if i >= b.len() {
            assert(br.len() == 0);
            return false;
        }
        if i >= a.len() {
            assert(ar.len() == 0 && br.len() > 0);
            return true;
        }
        let cha = a[i];
        let chb = b[i];
        if cha != chb {
            proof {
                assert(ar[0] == a@[i as int] && br[0] == b@[i as int]);
            }
            return cha < chb;
        }
        proof {
            assert(ar[0] == a@[i as int] && br[0] == b@[i as int]);
            assert(a@[i as int] == b@[i as int]);
            assert(ar.drop_first() =~= a@.subrange(i + 1, a@.len() as int));
            assert(br.drop_first() =~= b@.subrange(i + 1, b@.len() as int));
        }
        i = i + 1;
    }
}

} // verus!


verus! {

/// Appends `cs[x..y)` to `out`.
pub fn push_range(out: &mut Vec<char>, cs: &Vec<char>, x: usize, y: usize)
    requires
        x <= y <= cs@.len(),
    ensures
        final(out)@ == old(out)@ + cs@.subrange(x as int, y as int),
{
    let mut k: usize = x;
    while k < y
        invariant
            x <= k <= y <= cs@.len(),
            out@ == old(out)@ + cs@.subrange(x as int, k as int),
        decreases y - k,
    {
        out.push(cs[k]);
        k = k + 1;
        proof {
            assert(out@ =~= old(out)@ + cs@.subrange(x as int, k as int));
        }
    }
}

/// The string `cs[x..y)`.
pub fn extract_range(cs: &Vec<char>, x: usize, y: usize) -> (s: String)
    requires
        x <= y <= cs@.len(),
    ensures
        s@ == cs@.subrange(x as int, y as int),
{
    let mut v: Vec<char> = Vec::new();
    push_range(&mut v, cs, x, y);
    string_from_chars(&v)
}

/// The first position in `[i, end)` holding character `c`, or `end`.
pub open spec fn scan_to(s: Seq<char>, i: int, end: int, c: char) -> int
    decreases end - i,
{
    if !(0 <= i < end && end <= s.len()) {
        end
    } else if s[i] == c {
        i
    } else {
        scan_to(s, i + 1, end, c)
    }
}

pub proof fn lemma_scan_to(s: Seq<char>, i: int, end: int, c: char)
    requires
        0 <= i <= end <= s.len(),
    ensures
        i <= scan_to(s, i, end, c) <= end,
        forall|k: int| i <= k < scan_to(s, i, end, c) ==> s[k] != c,
        scan_to(s, i, end, c) < end ==> s[scan_to(s, i, end, c)] == c,
    decreases end - i,
{
    if i < end && s[i] != c {
        lemma_scan_to(s, i + 1, end, c);
    }
}

/// Exec scan for [`scan_to`].
pub fn scan_to_exec(cs: &Vec<char>, i: usize, end: usize, c: char) -> (r: usize)
    requires
        i <= end <= cs@.len(),
    ensures
        r as int == scan_to(cs@, i as int, end as int, c),
        i <= r <= end,
{
    let mut k: usize = i;
    while k < end && cs[k] != c
        invariant
            i <= k <= end <= cs@.len(),
            scan_to(cs@, i as int, end as int, c) == scan_to(cs@, k as int, end as int, c),
        decreases end - k,
    {
        k = k + 1;
    }
    k
}

/// The first whitespace position in `[i, end)`, or `end`.
pub open spec fn scan_ws(s: Seq<char>, i: int, end: int) -> int
    decreases end - i,
{
    if !(0 <= i < end && end <= s.len()) {
        end
    } else if is_ws(s[i]) {
        i
    } else {
        scan_ws(s, i + 1, end)
    }
}

pub proof fn lemma_scan_ws(s: Seq<char>, i: int, end: int)
    requires
        0 <= i <= end <= s.len(),
    ensures
        i <= scan_ws(s, i, end) <= end,
        forall|k: int| i <= k < scan_ws(s, i, end) ==> !is_ws(s[k]),
        scan_ws(s, i, end) < end ==> is_ws(s[scan_ws(s, i, end)]),
    decreases end - i,
{
    if i < end && !is_ws(s[i]) {
        lemma_scan_ws(s, i + 1, end);
    }
}

/// Exec scan for [`scan_ws`].
pub fn scan_ws_exec(cs: &Vec<char>, i: usize, end: usize) -> (r: usize)
    requires
        i <= end <= cs@.len(),
    ensures
        r as int == scan_ws(cs@, i as int, end as int),
        i <= r <= end,
{
    let mut k: usize = i;
    while k < end && !ws_char(cs[k])
        invariant
            i <= k <= end <= cs@.len(),
            scan_ws(cs@, i as int, end as int) == scan_ws(cs@, k as int, end as int),
        decreases end - k,
    {
        k = k + 1;
    }
    k
}

/// The first non-whitespace position in `[i, end)`, or `end`.
pub open spec fn scan_non_ws(s: Seq<char>, i: int, end: int) -> int
    decreases end - i,
{
    if !(0 <= i < end && end <= s.len()) {
        end
    } else if !is_ws(s[i]) {
        i
    } else {
        scan_non_ws(s, i + 1, end)
    }
}

pub proof fn lemma_scan_non_ws(s: Seq<char>, i: int, end: int)
    requires
        0 <= i <= end <= s.len(),
    ensures
        i <= scan_non_ws(s, i, end) <= end,
        forall|k: int| i <= k < scan_non_ws(s, i, end) ==> is_ws(s[k]),
        scan_non_ws(s, i, end) < end ==> !is_ws(s[scan_non_ws(s, i, end)]),
    decreases end - i,
{
    if i < end && is_ws(s[i]) {
        lemma_scan_non_ws(s, i + 1, end);
    }
}

/// Exec scan for [`scan_non_ws`].
pub fn scan_non_ws_exec(cs: &Vec<char>, i: usize, end: usize) -> (r: usize)
    requires
        i <= end <= cs@.len(),
    ensures
        r as int == scan_non_ws(cs@, i as int, end as int),
        i <= r <= end,
{
    let mut k: usize = i;
    while k < end && ws_char(cs[k])
        invariant
            i <= k <= end <= cs@.len(),
            scan_non_ws(cs@, i as int, end as int) == scan_non_ws(cs@, k as int, end as int),
        decreases end - k,
    {
        k = k + 1;
    }
    k
}

/// A fresh vector holding `cs[x..y)`.
pub fn copy_range(cs: &Vec<char>, x: usize, y: usize) -> (v: Vec<char>)
    requires
        x <= y <= cs@.len(),
    ensures
        v@ == cs@.subrange(x as int, y as int),
{
    let mut v: Vec<char> = Vec::new();
    push_range(&mut v, cs, x, y);
    v
}

/// The sequence with all leading quote characters removed.
pub open spec fn quote_trim_start(s: Seq<char>) -> Seq<char>
    decreases s.len(),
{
    if s.len() > 0 && s[0] == '"' {
        quote_trim_start(s.drop_first())
    } else {
        s
    }
}

/// The sequence with all trailing quote characters removed.
pub open spec fn quote_trim_end(s: Seq<char>) -> Seq<char>
    decreases s.len(),
{
    if s.len() > 0 && s[s.len() - 1] == '"' {
        quote_trim_end(s.drop_last())
    } else {
        s
    }
}

/// The sequence with surrounding quote characters removed, as trimming a
/// quote mark from both ends does.
pub open spec fn quote_trim(s: Seq<char>) -> Seq<char> {
    quote_trim_end(quote_trim_start(s))
}

proof fn lemma_quote_trim_start_skip(s: Seq<char>, k: int)
    requires
        0 <= k <= s.len(),
        forall|i: int| 0 <= i < k ==> s[i] == '"',
        k < s.len() ==> s[k] != '"',
    ensures
        quote_trim_start(s) == s.subrange(k, s.len() as int),
    decreases k,
{
    if k == 0 {
        assert(s.subrange(0, s.len() as int) =~= s);
    } else {
        let t = s.drop_first();
        assert(forall|i: int| 0 <= i < k - 1 ==> #[trigger] t[i] == '"');
        lemma_quote_trim_start_skip(t, k - 1);
        assert(t.subrange(k - 1, t.len() as int) =~= s.subrange(k, s.len() as int));
    }
}

proof fn lemma_quote_trim_end_take(s: Seq<char>, k: int)
    requires
        0 <= k <= s.len(),
        forall|i: int| k <= i < s.len() ==> s[i] == '"',
        k > 0 ==> s[k - 1] != '"',
    ensures
        quote_trim_end(s) == s.subrange(0, k),
    decreases s.len() - k,
{
    if k == s.len() {
        assert(s.subrange(0, k) =~= s);
    } else {
        let t = s.drop_last();
        lemma_quote_trim_end_take(t, k);
        assert(t.subrange(0, k) =~= s.subrange(0, k));
    }
}

/// The index range that quote-trimming leaves:
/// `quote_trim(v@.subrange(from, to)) == v@.subrange(lo, hi)`.
pub fn quote_trim_range(v: &Vec<char>, from: usize, to: usize) -> (r: (usize, usize))
    requires
        from <= to <= v@.len(),
    ensures
        from <= r.0 <= r.1 <= to,
        quote_trim(v@.subrange(from as int, to as int)) == v@.subrange(r.0 as int, r.1 as int),
{
    let ghost s = v@.subrange(from as int, to as int);
    let mut lo: usize = from;
    while lo < to && v[lo] == '"'
        invariant
            from <= lo <= to <= v@.len(),
            forall|i: int| from <= i < lo ==> v@[i] == '"',
        decreases to - lo,
    {
        lo = lo + 1;
    }
    let mut hi: usize = to;
    while hi > lo && v[hi - 1] == '"'
        invariant
            lo <= hi <= to <= v@.len(),
            forall|i: int| hi <= i < to ==> v@[i] == '"',
        decreases hi,
    {
        hi = hi - 1;
    }
    proof {
        assert(forall|i: int| 0 <= i < lo - from ==> #[trigger] s[i] == '"');
        assert(lo - from < s.len() ==> s[lo - from] != '"');
        lemma_quote_trim_start_skip(s, lo - from);
        let t = s.subrange(lo - from, s.len() as int);
        assert(forall|i: int| hi - lo <= i < t.len() ==> #[trigger] t[i] == '"');
        assert(hi - lo > 0 ==> t[hi - lo - 1] != '"');
        lemma_quote_trim_end_take(t, hi - lo);
        assert(t.subrange(0, hi - lo) =~= v@.subrange(lo as int, hi as int));
    }
    (lo, hi)
}

/// The decimal digit character for a value below ten.
pub open spec fn digit_char(d: int) -> char {
    if d == 0 {
        '0'
    } else if d == 1 {
        '1'
    } else if d == 2 {
        '2'
    } else if d == 3 {
        '3'
    } else if d == 4 {
        '4'
    } else if d == 5 {
        '5'
    } else if d == 6 {
        '6'
    } else if d == 7 {
        '7'
    } else if d == 8 {
        '8'
    } else {
        '9'
    }
}

/// The decimal rendering of a number, most significant digit first.
pub open spec fn dec_chars(n: int) -> Seq<char>
    decreases n,
{
    if n < 10 {
        seq![digit_char(n)]
    } else {
        dec_chars(n / 10) + seq![digit_char(n % 10)]
    }
}

/// The character for one decimal digit.
fn digit_to_char(d: u64) -> (c: char)
    requires
        d < 10,
    ensures
        c == digit_char(d as int),
{
    if d == 0 {
        '0'
    } else if d == 1 {
        '1'
    } else if d == 2 {
        '2'
    } else if d == 3 {
        '3'
    } else if d == 4 {
        '4'
    } else if d == 5 {
        '5'
    } else if d == 6 {
        '6'
    } else if d == 7 {
        '7'
    } else if d == 8 {
        '8'
    } else {
        '9'
    }
}

/// Renders a number in decimal.
pub fn u64_to_dec(n: u64) -> (s: String)
    ensures
        s@ == dec_chars(n as int),
{
    let mut rev: Vec<char> = Vec::new();
    let mut m: u64 = n;
    while m >= 10
        invariant
            dec_chars(n as int) == dec_chars(m as int) + rev@.reverse(),
        decreases m,
    {
        let ghost rev0 = rev@;
        let c = digit_to_char(m % 10);
        rev.push(c);
        proof {
            assert(rev@.reverse() =~= seq![c] + rev0.reverse());
            assert(dec_chars(m as int) == dec_chars(m as int / 10) + seq![digit_char(
                m as int % 10,
            )]);
            assert(dec_chars(m as int) + rev0.reverse() =~= dec_chars(m as int / 10)
                + rev@.reverse());
        }
        m = m / 10;
    }
    let ghost rev1 = rev@;
    let c = digit_to_char(m);
    rev.push(c);
    proof {
        assert(dec_chars(m as int) == seq![digit_char(m as int)]);
        assert(rev@.reverse() =~= seq![c] + rev1.reverse());
        assert(dec_chars(n as int) =~= rev@.reverse());
    }
    let mut out: Vec<char> = Vec::new();
    let mut k: usize = rev.len();
    while k > 0
        invariant
            k <= rev@.len(),
            out@ == rev@.subrange(k as int, rev@.len() as int).reverse(),
            dec_chars(n as int) == rev@.reverse(),
        decreases k,
    {
        k = k - 1;
        out.push(rev[k]);
        proof {
            assert(out@ =~= rev@.subrange(k as int, rev@.len() as int).reverse());
        }
    }
    proof {
        assert(rev@.subrange(0, rev@.len() as int) =~= rev@);
        assert(dec_chars(n as int) =~= out@);
    }
    string_from_chars(&out)
}

} // verus!
