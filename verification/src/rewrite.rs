//! Rewriting of raster-image references for the optimized output format.
//!
//! Applied to rendered HTML and CSS text. The first pass finds substrings
//! `<delim><path>.<ext><delim>` — the opening delimiter a quote, `(` or
//! whitespace, the closing one a quote, `)` or whitespace, the path free of
//! quotes, `)`, whitespace, `?` and `#` (so query strings and fragments never
//! match), and the extension `png`, `jpg` or `jpeg` in any letter case. A
//! matched path is rewritten to the `webp` extension when it is internal, or
//! external but prefixed by the configured base URL; other external paths stay
//! byte-for-byte unchanged. The second pass replaces every `image/png` and
//! `image/jpeg` MIME string, in any letter case, with `image/webp`,
//! unconditionally. Both passes are pure text transforms.

use vstd::prelude::*;
use crate::text::{chars_of, check_match_at, is_ws, push_range, string_from_chars, ws_char};

verus! {

/// Characters that may open a reference: quotes, `(` and whitespace.
pub open spec fn is_delim_open(c: char) -> bool {
    c == '"' || c == '\'' || c == '(' || is_ws(c)
}

/// Characters that may close a reference: quotes, `)` and whitespace.
pub open spec fn is_delim_close(c: char) -> bool {
    c == '"' || c == '\'' || c == ')' || is_ws(c)
}

/// Characters allowed inside a referenced path.
pub open spec fn is_path_char(c: char) -> bool {
    !(c == '"' || c == '\'' || c == ')' || is_ws(c) || c == '?' || c == '#')
}

/// The upper-case form of the letters the matched literals use. These are
/// the only characters that case-fold to them, so matching a letter or its
/// ASCII capital is exact case-insensitive matching for these literals.
pub open spec fn upper_of(c: char) -> char {
    if c == 'a' {
        'A'
    } else if c == 'e' {
        'E'
    } else if c == 'g' {
        'G'
    } else if c == 'i' {
        'I'
    } else if c == 'j' {
        'J'
    } else if c == 'm' {
        'M'
    } else if c == 'n' {
        'N'
    } else if c == 'p' {
        'P'
    } else {
        c
    }
}

/// Case-insensitive match of a character against a lower-case literal letter.
pub open spec fn ci_eq(c: char, l: char) -> bool {
    c == l || c == upper_of(l)
}

/// Exec mirror of [`is_delim_open`].
fn delim_open_char(c: char) -> (r: bool)
    ensures
        r == is_delim_open(c),
{
    c == '"' || c == '\'' || c == '(' || ws_char(c)
}

/// Exec mirror of [`is_delim_close`].
fn delim_close_char(c: char) -> (r: bool)
    ensures
        r == is_delim_close(c),
{
    c == '"' || c == '\'' || c == ')' || ws_char(c)
}

/// Exec mirror of [`is_path_char`].
fn path_char(c: char) -> (r: bool)
    ensures
        r == is_path_char(c),
{
    !(c == '"' || c == '\'' || c == ')' || ws_char(c) || c == '?' || c == '#')
}

/// Exec mirror of [`ci_eq`].
fn ci_eq_char(c: char, l: char) -> (r: bool)
    ensures
        r == ci_eq(c, l),
{
    if c == l {
        true
    } else if l == 'a' {
        c == 'A'
    } else if l == 'e' {
        c == 'E'
    } else if l == 'g' {
        c == 'G'
    } else if l == 'i' {
        c == 'I'
    } else if l == 'j' {
        c == 'J'
    } else if l == 'm' {
        c == 'M'
    } else if l == 'n' {
        c == 'N'
    } else if l == 'p' {
        c == 'P'
    } else {
        false
    }
}

/// The end of the run of path characters that starts at `j`: the first
/// position at or after `j` holding a non-path character, or the text's end.
pub open spec fn run_end(s: Seq<char>, j: int) -> int
    decreases s.len() - j,
{
    if j < 0 || j >= s.len() {
        s.len() as int
    } else if is_path_char(s[j]) {
        run_end(s, j + 1)
    } else {
        j
    }
}

proof fn lemma_run_end(s: Seq<char>, j: int)
    requires
        0 <= j <= s.len(),
    ensures
        j <= run_end(s, j) <= s.len(),
        forall|k: int| j <= k < run_end(s, j) ==> is_path_char(s[k]),
        run_end(s, j) < s.len() ==> !is_path_char(s[run_end(s, j)]),
    decreases s.len() - j,
{
    if j < s.len() && is_path_char(s[j]) {
        lemma_run_end(s, j + 1);
    }
}

/// Case-insensitive occurrence of a lower-case literal at position `at`.
pub open spec fn ci_match_at(s: Seq<char>, at: int, lit: Seq<char>) -> bool {
    &&& 0 <= at
    &&& at + lit.len() <= s.len()
    &&& forall|k: int| 0 <= k < lit.len() ==> ci_eq(s[at + k], lit[k])
}

pub open spec fn png_chars() -> Seq<char> {
    seq!['p', 'n', 'g']
}

pub open spec fn jpg_chars() -> Seq<char> {
    seq!['j', 'p', 'g']
}

pub open spec fn jpeg_chars() -> Seq<char> {
    seq!['j', 'p', 'e', 'g']
}

pub open spec fn webp_chars() -> Seq<char> {
    seq!['w', 'e', 'b', 'p']
}

/// Whether the run ends in a dot, the given extension (case-insensitively),
/// and at least one path character before the dot.
pub open spec fn ends_dot_ext(run: Seq<char>, ext: Seq<char>) -> bool {
    &&& run.len() >= ext.len() + 2
    &&& run[run.len() - ext.len() - 1] == '.'
    &&& forall|k: int| 0 <= k < ext.len() ==> ci_eq(run[run.len() - ext.len() + k], ext[k])
}

/// The length of the raster-image extension the run ends with, or zero when
/// it ends with none.
pub open spec fn ext_len_of(run: Seq<char>) -> int {
    if ends_dot_ext(run, png_chars()) {
        3
    } else if ends_dot_ext(run, jpg_chars()) {
        3
    } else if ends_dot_ext(run, jpeg_chars()) {
        4
    } else {
        0
    }
}

/// An absolute reference: the path names a scheme, or is protocol-relative.
pub open spec fn is_external_path(p: Seq<char>) -> bool {
    (exists|k: int|
        0 <= k && k + 3 <= p.len() && #[trigger] p[k] == ':' && p[k + 1] == '/' && p[k + 2] == '/')
        || (p.len() >= 2 && p[0] == '/' && p[1] == '/')
}

/// Whether the path starts with the given base URL.
pub open spec fn starts_with(p: Seq<char>, base: Seq<char>) -> bool {
    base.len() <= p.len() && p.subrange(0, base.len() as int) == base
}

/// A matched path's extension is rewritten when the path is internal, or
/// external but prefixed by the site's own base URL.
pub open spec fn path_gets_rewritten(p: Seq<char>, base: Seq<char>) -> bool {
    !is_external_path(p) || starts_with(p, base)
}

/// A delimited raster-image reference starts at position `i`.
pub open spec fn ext_match_at(s: Seq<char>, i: int) -> bool {
    &&& 0 <= i < s.len()
    &&& is_delim_open(s[i])
    &&& run_end(s, i + 1) < s.len()
    &&& is_delim_close(s[run_end(s, i + 1)])
    &&& ext_len_of(s.subrange(i + 1, run_end(s, i + 1))) > 0
}

/// What the match starting at `i` becomes in the output: extension replaced
/// by `webp` when the path qualifies, the whole match unchanged otherwise.
pub open spec fn piece_at(s: Seq<char>, base: Seq<char>, i: int) -> Seq<char> {
    let e = run_end(s, i + 1);
    let run = s.subrange(i + 1, e);
    let elen = ext_len_of(run);
    let p = run.subrange(0, run.len() - elen);
    if path_gets_rewritten(p, base) {
        seq![s[i]] + p + webp_chars() + seq![s[e]]
    } else {
        s.subrange(i, e + 1)
    }
}

/// The extension pass over the text's tail from position `i`: the leftmost
/// match is replaced and scanning continues after its closing delimiter;
/// elsewhere the text is kept character for character.
pub open spec fn rewrite_ext_from(s: Seq<char>, base: Seq<char>, i: int) -> Seq<char>
    decreases s.len() - i,
        via rewrite_ext_from_dec
{
    if i < 0 || i >= s.len() {
        Seq::empty()
    } else if ext_match_at(s, i) {
        piece_at(s, base, i) + rewrite_ext_from(s, base, run_end(s, i + 1) + 1)
    } else {
        seq![s[i]] + rewrite_ext_from(s, base, i + 1)
    }
}

#[via_fn]
proof fn rewrite_ext_from_dec(s: Seq<char>, base: Seq<char>, i: int) {
    if 0 <= i < s.len() && ext_match_at(s, i) {
        lemma_run_end(s, i + 1);
    }
}

pub open spec fn mime_png_chars() -> Seq<char> {
    seq!['i', 'm', 'a', 'g', 'e', '/', 'p', 'n', 'g']
}

pub open spec fn mime_jpeg_chars() -> Seq<char> {
    seq!['i', 'm', 'a', 'g', 'e', '/', 'j', 'p', 'e', 'g']
}

pub open spec fn mime_webp_chars() -> Seq<char> {
    seq!['i', 'm', 'a', 'g', 'e', '/', 'w', 'e', 'b', 'p']
}

/// The MIME pass over the text's tail from position `i`: every `image/png`
/// or `image/jpeg` occurrence, in any letter case, becomes `image/webp`.
pub open spec fn mime_from(s: Seq<char>, i: int) -> Seq<char>
    decreases s.len() - i,
{
    if i < 0 || i >= s.len() {
        Seq::empty()
    } else if ci_match_at(s, i, mime_png_chars()) {
        mime_webp_chars() + mime_from(s, i + 9)
    } else if ci_match_at(s, i, mime_jpeg_chars()) {
        mime_webp_chars() + mime_from(s, i + 10)
    } else {
        seq![s[i]] + mime_from(s, i + 1)
    }
}

/// Both passes, extension rewriting first, MIME replacement on its output.
pub open spec fn rewrite_spec(s: Seq<char>, base: Seq<char>) -> Seq<char> {
    mime_from(rewrite_ext_from(s, base, 0), 0)
}

/// Exec scan for [`run_end`].
fn run_end_exec(cs: &Vec<char>, j: usize) -> (e: usize)
    requires
        j <= cs@.len(),
    ensures
        e == run_end(cs@, j as int),
        j <= e <= cs@.len(),
{
    let mut k: usize = j;
    while k < cs.len() && path_char(cs[k])
        invariant
            j <= k <= cs@.len(),
            run_end(cs@, j as int) == run_end(cs@, k as int),
        decreases cs@.len() - k,
    {
        k = k + 1;
    }
    proof {
        lemma_run_end(cs@, k as int);
    }
    k
}

/// Exec check of the extension a run ends with; `0` means none.
fn ext_len_at(cs: &Vec<char>, lo: usize, e: usize) -> (r: usize)
    requires
        lo <= e <= cs@.len(),
    ensures
        r as int == ext_len_of(cs@.subrange(lo as int, e as int)),
        r > 0 ==> lo + r + 2 <= e,
{
    let ghost run = cs@.subrange(lo as int, e as int);
    let rl: usize = e - lo;
    proof {
        assert(run.len() == rl);
        assert(forall|m: int| 0 <= m < rl ==> run[m] == cs@[lo + m]);
    }
    if rl >= 5 && cs[e - 4] == '.' && ci_eq_char(cs[e - 3], 'p') && ci_eq_char(cs[e - 2], 'n')
        && ci_eq_char(cs[e - 1], 'g') {
        proof {
            assert(run[rl - 4] == '.');
            assert(ci_eq(run[rl - 3], 'p') && ci_eq(run[rl - 2], 'n') && ci_eq(run[rl - 1], 'g'));
            assert forall|k: int| 0 <= k < 3 implies ci_eq(
                run[run.len() - 3 + k],
                png_chars()[k],
            ) by {
                if k == 0 {
                } else if k == 1 {
                } else {
                }
            }
            assert(ends_dot_ext(run, png_chars()));
        }
        return 3;
    }
    if rl >= 5 && cs[e - 4] == '.' && ci_eq_char(cs[e - 3], 'j') && ci_eq_char(cs[e - 2], 'p')
        && ci_eq_char(cs[e - 1], 'g') {
        proof {
            assert(run[rl - 4] == '.');
            assert forall|k: int| 0 <= k < 3 implies ci_eq(
                run[run.len() - 3 + k],
                jpg_chars()[k],
            ) by {}
            assert(ends_dot_ext(run, jpg_chars()));
            assert(!ends_dot_ext(run, png_chars())) by {
                if ends_dot_ext(run, png_chars()) {
                    assert(ci_eq(run[run.len() - 3], png_chars()[0]));
                    assert(ci_eq(run[run.len() - 3], 'j'));
                }
            }
        }
        return 3;
    }
    if rl >= 6 && cs[e - 5] == '.' && ci_eq_char(cs[e - 4], 'j') && ci_eq_char(cs[e - 3], 'p')
        && ci_eq_char(cs[e - 2], 'e') && ci_eq_char(cs[e - 1], 'g') {
        proof {
            assert(run[rl - 5] == '.');
            assert forall|k: int| 0 <= k < 4 implies ci_eq(
                run[run.len() - 4 + k],
                jpeg_chars()[k],
            ) by {}
            assert(ends_dot_ext(run, jpeg_chars()));
            assert(!ends_dot_ext(run, png_chars())) by {
                if ends_dot_ext(run, png_chars()) {
                    assert(ci_eq(run[run.len() - 2], png_chars()[1]));
                    assert(ci_eq(run[run.len() - 2], 'e'));
                }
            }
            assert(!ends_dot_ext(run, jpg_chars())) by {
                if ends_dot_ext(run, jpg_chars()) {
                    assert(ci_eq(run[run.len() - 2], jpg_chars()[1]));
                    assert(ci_eq(run[run.len() - 2], 'e'));
                }
            }
        }
        return 4;
    }
    proof {
        assert(!ends_dot_ext(run, png_chars())) by {
            if ends_dot_ext(run, png_chars()) {
                assert(run[rl - 4] == '.');
                assert(ci_eq(run[rl - 3], 'p') && ci_eq(run[rl - 2], 'n') && ci_eq(
                    run[rl - 1],
                    'g',
                ));
            }
        }
        assert(!ends_dot_ext(run, jpg_chars())) by {
            if ends_dot_ext(run, jpg_chars()) {
                assert(run[rl - 4] == '.');
                assert(ci_eq(run[rl - 3], 'j') && ci_eq(run[rl - 2], 'p') && ci_eq(
                    run[rl - 1],
                    'g',
                ));
            }
        }
        assert(!ends_dot_ext(run, jpeg_chars())) by {
            if ends_dot_ext(run, jpeg_chars()) {
                assert(run[rl - 5] == '.');
                assert(ci_eq(run[rl - 4], 'j') && ci_eq(run[rl - 3], 'p') && ci_eq(
                    run[rl - 2],
                    'e',
                ) && ci_eq(run[rl - 1], 'g'));
            }
        }
    }
    0
}

/// Exec check of [`path_gets_rewritten`] on the path at `[lo, hi)`.
fn path_is_rewritten(cs: &Vec<char>, lo: usize, hi: usize, base: &Vec<char>) -> (r: bool)
    requires
        lo <= hi <= cs@.len(),
    ensures
        r == path_gets_rewritten(cs@.subrange(lo as int, hi as int), base@),
{
    let ghost p = cs@.subrange(lo as int, hi as int);
    proof {
        assert(forall|m: int| 0 <= m < p.len() ==> #[trigger] p[m] == cs@[lo + m]);
    }
    let mut external = false;
    if hi - lo >= 2 && cs[lo] == '/' && cs[lo + 1] == '/' {
        external = true;
    }
    let mut k: usize = lo;
    while k < hi && !external
        invariant
            lo <= k <= hi <= cs@.len(),
            p == cs@.subrange(lo as int, hi as int),
            external ==> is_external_path(p),
            !external ==> forall|m: int|
                0 <= m < k - lo && m + 3 <= p.len() ==> !(#[trigger] p[m] == ':' && p[m + 1] == '/'
                    && p[m + 2] == '/'),
            !external ==> !(p.len() >= 2 && p[0] == '/' && p[1] == '/'),
        decreases hi - k,
    {
        if hi - k >= 3 && cs[k] == ':' && cs[k + 1] == '/' && cs[k + 2] == '/' {
            proof {
                assert(0 <= k - lo && (k - lo) + 3 <= p.len());
                assert(p[k - lo] == cs@[k as int]);
                assert(p[k - lo + 1] == cs@[k as int + 1]);
                assert(p[k - lo + 2] == cs@[k as int + 2]);
                assert(is_external_path(p));
            }
            external = true;
        }
        k = k + 1;
    }
    if !external {
        proof {
            assert forall|m: int| !(0 <= m && m + 3 <= p.len() && #[trigger] p[m] == ':' && p[m + 1]
                == '/' && p[m + 2] == '/') by {
                if 0 <= m && m + 3 <= p.len() && p[m] == ':' && p[m + 1] == '/' && p[m + 2]
                    == '/' {
                    assert(m < k - lo);
                }
            }
            assert(!is_external_path(p));
        }
        return true;
    }
    // external: rewritten only when the base URL is a prefix
    if base.len() <= hi - lo {
        let pref = check_match_at(cs, lo, base);
        proof {
            if pref {
                assert(p.subrange(0, base@.len() as int) =~= cs@.subrange(
                    lo as int,
                    lo + base@.len(),
                ));
            } else {
                assert(p.subrange(0, base@.len() as int) =~= cs@.subrange(
                    lo as int,
                    lo + base@.len(),
                ));
            }
        }
        pref
    } else {
        false
    }
}

/// Appends to `out` what the match starting at `i` becomes in the output.
fn emit_piece(out: &mut Vec<char>, cs: &Vec<char>, bs: &Vec<char>, i: usize, e: usize, elen: usize)
    requires
        ext_match_at(cs@, i as int),
        e == run_end(cs@, i as int + 1),
        i < e < cs@.len(),
        elen as int == ext_len_of(cs@.subrange(i as int + 1, e as int)),
        0 < elen,
        i + 1 + elen + 2 <= e + 1,
    ensures
        final(out)@ == old(out)@ + piece_at(cs@, bs@, i as int),
{
    let ghost run = cs@.subrange(i as int + 1, e as int);
    let plen: usize = (e - (i + 1)) - elen;
    proof {
        assert(run.subrange(0, run.len() - elen) =~= cs@.subrange(
            i as int + 1,
            i as int + 1 + plen,
        ));
    }
    let rewritten = path_is_rewritten(cs, i + 1, i + 1 + plen, bs);
    if rewritten {
        out.push(cs[i]);
        push_range(out, cs, i + 1, i + 1 + plen);
        out.push('w');
        out.push('e');
        out.push('b');
        out.push('p');
        out.push(cs[e]);
        proof {
            assert(out@ =~= old(out)@ + piece_at(cs@, bs@, i as int));
        }
    } else {
        let n = cs.len();
        assert(e < n);
        push_range(out, cs, i, e + 1);
        proof {
            assert(out@ =~= old(out)@ + piece_at(cs@, bs@, i as int));
        }
    }
}

/// The extension pass over a character vector.
#[verifier::rlimit(50)]
fn rewrite_ext_pass(cs: &Vec<char>, bs: &Vec<char>) -> (out: Vec<char>)
    ensures
        out@ == rewrite_ext_from(cs@, bs@, 0),
{
    let mut out: Vec<char> = Vec::new();
    let mut i: usize = 0;
    while i < cs.len()
        invariant
            i <= cs@.len(),
            rewrite_ext_from(cs@, bs@, 0) == out@ + rewrite_ext_from(cs@, bs@, i as int),
        decreases cs@.len() - i,
    {
        let c = cs[i];
        let mut matched = false;
        if delim_open_char(c) {
            let e = run_end_exec(cs, i + 1);
            proof {
                lemma_run_end(cs@, i as int + 1);
            }
            if e < cs.len() && delim_close_char(cs[e]) {
                let elen = ext_len_at(cs, i + 1, e);
                if elen > 0 {
                    matched = true;
                    proof {
                        assert(ext_match_at(cs@, i as int));
                    }
                    emit_piece(&mut out, cs, bs, i, e, elen);
                    proof {
                        assert(rewrite_ext_from(cs@, bs@, i as int) == piece_at(cs@, bs@, i as int)
                            + rewrite_ext_from(cs@, bs@, e as int + 1));
                    }
                    i = e + 1;
                } else {
                    proof {
                        assert(!ext_match_at(cs@, i as int));
                    }
                }
            } else {
                proof {
                    assert(!ext_match_at(cs@, i as int));
                }
            }
        } else {
            proof {
                assert(!ext_match_at(cs@, i as int));
            }
        }
        if !matched {
            let ghost out0 = out@;
            out.push(c);
            proof {
                assert(out@ =~= out0 + seq![cs@[i as int]]);
                assert(rewrite_ext_from(cs@, bs@, i as int) == seq![cs@[i as int]]
                    + rewrite_ext_from(cs@, bs@, i as int + 1));
            }
            i = i + 1;
        }
    }
    proof {
        assert(rewrite_ext_from(cs@, bs@, i as int) =~= Seq::<char>::empty());
        assert(out@ =~= out@ + rewrite_ext_from(cs@, bs@, i as int));
    }
    out
}

/// Exec check of [`ci_match_at`].
fn ci_match_exec(cs: &Vec<char>, at: usize, lit: &Vec<char>) -> (r: bool)
    requires
        at <= cs@.len(),
    ensures
        r == ci_match_at(cs@, at as int, lit@),
{
    if cs.len() - at < lit.len() {
        return false;
    }
    let end: usize = at + lit.len();
    let mut j: usize = 0;
    while j < lit.len()
        invariant
            j <= lit@.len(),
            end == at + lit@.len(),
            at + lit@.len() <= cs@.len(),
            forall|k: int| 0 <= k < j ==> ci_eq(cs@[at + k], lit@[k]),
        decreases lit@.len() - j,
    {
        if !ci_eq_char(cs[at + j], lit[j]) {
            return false;
        }
        j = j + 1;
    }
    true
}

/// The MIME pass over a character vector.
fn rewrite_mime_pass(cs: &Vec<char>) -> (out: Vec<char>)
    ensures
        out@ == mime_from(cs@, 0),
{
    let png_lit: Vec<char> = vec!['i', 'm', 'a', 'g', 'e', '/', 'p', 'n', 'g'];
    let jpeg_lit: Vec<char> = vec!['i', 'm', 'a', 'g', 'e', '/', 'j', 'p', 'e', 'g'];
    proof {
        assert(png_lit@ =~= mime_png_chars());
        assert(jpeg_lit@ =~= mime_jpeg_chars());
    }
    let mut out: Vec<char> = Vec::new();
    let mut i: usize = 0;
    while i < cs.len()
        invariant
            i <= cs@.len(),
            png_lit@ == mime_png_chars(),
            jpeg_lit@ == mime_jpeg_chars(),
            mime_from(cs@, 0) == out@ + mime_from(cs@, i as int),
        decreases cs@.len() - i,
    {
        let ghost out0 = out@;
        if ci_match_exec(cs, i, &png_lit) {
            out.push('i');
            out.push('m');
            out.push('a');
            out.push('g');
            out.push('e');
            out.push('/');
            out.push('w');
            out.push('e');
            out.push('b');
            out.push('p');
            proof {
                assert(out@ =~= out0 + mime_webp_chars());
            }
            i = i + 9;
        } else if ci_match_exec(cs, i, &jpeg_lit) {
            out.push('i');
            out.push('m');
            out.push('a');
            out.push('g');
            out.push('e');
            out.push('/');
            out.push('w');
            out.push('e');
            out.push('b');
            out.push('p');
            proof {
                assert(out@ =~= out0 + mime_webp_chars());
            }
            i = i + 10;
        } else {
            out.push(cs[i]);
            proof {
                assert(out@ =~= out0 + seq![cs@[i as int]]);
            }
            i = i + 1;
        }
    }
    proof {
        assert(mime_from(cs@, i as int) =~= Seq::<char>::empty());
        assert(out@ =~= out@ + mime_from(cs@, i as int));
    }
    out
}

/// Rewrites raster-image references and MIME strings in rendered text to the
/// optimized format: internal paths and paths under `base_url` get the `webp`
/// extension, other external paths stay unchanged, and every `image/png` or
/// `image/jpeg` MIME string becomes `image/webp`.
pub fn rewrite_to_webp(content: &str, base_url: &str) -> (r: String)
    ensures
        r@ == rewrite_spec(content@, base_url@),
{
    let cs = chars_of(content);
    let bs = chars_of(base_url);
    let mid = rewrite_ext_pass(&cs, &bs);
    let out = rewrite_mime_pass(&mid);
    string_from_chars(&out)
}

} // verus!
