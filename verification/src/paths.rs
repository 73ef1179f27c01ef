//! Theme-layered path resolution and output-path layout.
//!
//! A relative path resolves against the project root first, falling back to
//! the configured theme's root: users override specific files in their
//! project without touching the shared theme. Absence is communicated
//! structurally — the caller reports what exists — never as an error. The
//! rest of the module fixes where outputs go: per-item pages, per-tag pages
//! under a fixed sub-path, numbered pagination directories, and the sibling
//! path an optimized image is written to.

use vstd::prelude::*;
use crate::rewrite::{ci_eq, jpeg_chars, jpg_chars, png_chars};
use crate::text::{chars_of, dec_chars, lower_of, lowercase, push_range, string_from_chars};

verus! {

/// A theme-relative candidate for a requested path.
pub open spec fn spec_join_path(dir: Seq<char>, rel: Seq<char>) -> Seq<char> {
    dir + "/"@ + rel
}

/// Resolves a relative path against the project root first, then the theme:
/// when the project has the path it always wins; only a path absent from the
/// project falls back to an existing theme copy; with neither present the
/// project path is returned unchanged. The caller reports existence of the
/// two candidates.
pub fn resolve_path(
    relative: &str,
    theme_dir: &Option<String>,
    project_exists: bool,
    theme_exists: bool,
) -> (r: String)
    ensures
        project_exists ==> r@ == relative@,
        (!project_exists && theme_dir is Some && theme_exists) ==> r@ == spec_join_path(
            theme_dir->0@,
            relative@,
        ),
        (!project_exists && !(theme_dir is Some && theme_exists)) ==> r@ == relative@,
{
    if project_exists {
        return relative.to_owned();
    }
    match theme_dir {
        Some(t) => {
            if theme_exists {
                let mut joined = t.clone();
                joined.append("/");
                joined.append(relative);
                joined
            } else {
                relative.to_owned()
            }
        },
        None => relative.to_owned(),
    }
}

/// The last position of `c` in `s`, or `-1` when `c` does not occur.
pub open spec fn last_pos(s: Seq<char>, c: char) -> int
    decreases s.len(),
{
    if s.len() == 0 {
        -1
    } else if s[s.len() - 1] == c {
        s.len() - 1
    } else {
        last_pos(s.drop_last(), c)
    }
}

pub proof fn lemma_last_pos(s: Seq<char>, c: char)
    ensures
        -1 <= last_pos(s, c) < s.len(),
        last_pos(s, c) >= 0 ==> s[last_pos(s, c)] == c,
        forall|k: int| last_pos(s, c) < k < s.len() ==> s[k] != c,
    decreases s.len(),
{
    if s.len() > 0 && s[s.len() - 1] != c {
        lemma_last_pos(s.drop_last(), c);
        assert(forall|k: int| 0 <= k < s.len() - 1 ==> s.drop_last()[k] == s[k]);
    }
}

/// Exec scan for [`last_pos`].
pub fn last_pos_exec(v: &Vec<char>, c: char) -> (r: (bool, usize))
    ensures
        r.0 ==> r.1 < v@.len() && r.1 as int == last_pos(v@, c),
        !r.0 ==> last_pos(v@, c) == -1,
{
    let mut k: usize = v.len();
    proof {
        assert(v@.subrange(0, v@.len() as int) =~= v@);
    }
    while k > 0
        invariant
            k <= v@.len(),
            last_pos(v@, c) == last_pos(v@.subrange(0, k as int), c),
        decreases k,
    {
        let ghost pre = v@.subrange(0, k as int);
        proof {
            assert(pre.len() == k);
            assert(pre[k - 1] == v@[k - 1]);
            assert(pre.drop_last() =~= v@.subrange(0, k - 1));
        }
        if v[k - 1] == c {
            return (true, k - 1);
        }
        k = k - 1;
    }
    proof {
        assert(v@.subrange(0, 0) =~= Seq::<char>::empty());
    }
    (false, 0)
}

/// Where a path's extension begins — one past its last dot — provided the
/// dot sits inside the final path component and not at its head; `-1` when
/// the path has no extension.
pub open spec fn ext_start(path: Seq<char>) -> int {
    let d = last_pos(path, '.');
    let sl = last_pos(path, '/');
    if d > sl + 1 {
        d + 1
    } else {
        -1
    }
}

/// The path with its extension replaced — or appended, when it has none.
pub open spec fn spec_replace_extension(path: Seq<char>, new_ext: Seq<char>) -> Seq<char> {
    if ext_start(path) >= 0 {
        path.subrange(0, ext_start(path)) + new_ext
    } else {
        path + "."@ + new_ext
    }
}

/// Replaces the path's extension, as writing an optimized sibling or a
/// compiled stylesheet's output name requires.
pub fn replace_extension(path: &str, new_ext: &str) -> (r: String)
    ensures
        r@ == spec_replace_extension(path@, new_ext@),
{
    let v = chars_of(path);
    let n = v.len();
    proof {
        lemma_last_pos(v@, '.');
        lemma_last_pos(v@, '/');
    }
    let (dot_found, d) = last_pos_exec(&v, '.');
    let (slash_found, sl) = last_pos_exec(&v, '/');
    let has_ext = dot_found && ((slash_found && d > sl + 1) || (!slash_found && d > 0));
    proof {
        assert(has_ext == (ext_start(path@) >= 0));
        if has_ext {
            assert(d + 1 == ext_start(path@));
        }
    }
    let mut out: Vec<char> = Vec::new();
    if has_ext {
        push_range(&mut out, &v, 0, d + 1);
        let ev = chars_of(new_ext);
        push_range(&mut out, &ev, 0, ev.len());
        proof {
            assert(ev@.subrange(0, ev@.len() as int) =~= ev@);
            assert(out@ =~= spec_replace_extension(path@, new_ext@));
        }
    } else {
        push_range(&mut out, &v, 0, v.len());
        out.push('.');
        let ev = chars_of(new_ext);
        push_range(&mut out, &ev, 0, ev.len());
        proof {
            reveal_strlit(".");
            assert(v@.subrange(0, v@.len() as int) =~= v@);
            assert(ev@.subrange(0, ev@.len() as int) =~= ev@);
            assert(out@ =~= spec_replace_extension(path@, new_ext@));
        }
    }
    string_from_chars(&out)
}

/// The sibling path an optimized raster image is written to.
pub fn webp_sibling(path: &str) -> (r: String)
    ensures
        r@ == spec_replace_extension(path@, "webp"@),
{
    replace_extension(path, "webp")
}

/// Whether a path names a raster image by extension — `png`, `jpg` or
/// `jpeg`, in any letter case.
pub open spec fn spec_is_raster_path(path: Seq<char>) -> bool {
    let e = ext_start(path);
    e >= 0 && {
        let ext = path.subrange(e, path.len() as int);
        ||| ext_matches(ext, png_chars())
        ||| ext_matches(ext, jpg_chars())
        ||| ext_matches(ext, jpeg_chars())
    }
}

/// Case-insensitive equality of an extension with a lower-case literal.
pub open spec fn ext_matches(ext: Seq<char>, lit: Seq<char>) -> bool {
    ext.len() == lit.len() && forall|k: int| 0 <= k < lit.len() ==> ci_eq(ext[k], #[trigger] lit[k])
}

/// Exec mirror of [`ci_eq`], over the letters the extensions use.
fn ext_ci_eq(c: char, l: char) -> (r: bool)
    ensures
        r == ci_eq(c, l),
{
    if c == l {
        true
    } else if l == 'a' {
        c == 'A'
    } else if l == 'e' {
        c == 'E'
    } else if l == 'g' {
        c == 'G'
    } else if l == 'i' {
        c == 'I'
    } else if l == 'j' {
        c == 'J'
    } else if l == 'm' {
        c == 'M'
    } else if l == 'n' {
        c == 'N'
    } else if l == 'p' {
        c == 'P'
    } else {
        false
    }
}

/// Case-insensitive check of the extension at `[e, len)` against a literal.
fn ext_matches_exec(v: &Vec<char>, e: usize, lit: &Vec<char>) -> (r: bool)
    requires
        e <= v@.len(),
    ensures
        r == ext_matches(v@.subrange(e as int, v@.len() as int), lit@),
{
    let ghost ext = v@.subrange(e as int, v@.len() as int);
    if v.len() - e != lit.len() {
        return false;
    }
    let n = v.len();
    let mut k: usize = 0;
    while k < lit.len()
        invariant
            k <= lit@.len(),
            e + lit@.len() == n,
            n == v@.len(),
            ext == v@.subrange(e as int, v@.len() as int),
            forall|h: int| 0 <= h < k ==> ci_eq(ext[h], #[trigger] lit@[h]),
        decreases lit@.len() - k,
    {
        if !ext_ci_eq(v[e + k], lit[k]) {
            proof {
                assert(ext[k as int] == v@[e + k]);
            }
            return false;
        }
        proof {
            assert(ext[k as int] == v@[e + k]);
        }
        k = k + 1;
    }
    true
}

/// Decides whether a path names a raster image eligible for optimization.
pub fn is_raster_path(path: &str) -> (r: bool)
    ensures
        r == spec_is_raster_path(path@),
{
    let v = chars_of(path);
    let n = v.len();
    proof {
        lemma_last_pos(v@, '.');
        lemma_last_pos(v@, '/');
    }
    let (dot_found, d) = last_pos_exec(&v, '.');
    let (slash_found, sl) = last_pos_exec(&v, '/');
    let has_ext = dot_found && ((slash_found && d > sl + 1) || (!slash_found && d > 0));
    proof {
        assert(has_ext == (ext_start(path@) >= 0));
    }
    if !has_ext {
        return false;
    }
    let e = d + 1;
    proof {
        assert(e as int == ext_start(path@));
    }
    let png_lit: Vec<char> = vec!['p', 'n', 'g'];
    let jpg_lit: Vec<char> = vec!['j', 'p', 'g'];
    let jpeg_lit: Vec<char> = vec!['j', 'p', 'e', 'g'];
    proof {
        assert(png_lit@ =~= png_chars());
        assert(jpg_lit@ =~= jpg_chars());
        assert(jpeg_lit@ =~= jpeg_chars());
    }
    let m = ext_matches_exec(&v, e, &png_lit) || ext_matches_exec(&v, e, &jpg_lit)
        || ext_matches_exec(&v, e, &jpeg_lit);
    m
}

/// The output path of one content item: the item's slug under the configured
/// posts sub-directory of the output tree, with the page extension.
pub open spec fn spec_post_output_path(out: Seq<char>, sub: Seq<char>, slug: Seq<char>) -> Seq<
    char,
> {
    let base = out + "/"@ + sub;
    let based = if base.len() > 0 && base[base.len() - 1] == '/' {
        base
    } else {
        base + "/"@
    };
    based + slug + ".html"@
}

/// Builds one content item's output path.
pub fn post_output_path(output_dir: &str, posts_outdir: &str, slug: &str) -> (r: String)
    ensures
        r@ == spec_post_output_path(output_dir@, posts_outdir@, slug@),
{
    let mut v = chars_of(output_dir);
    v.push('/');
    let sv = chars_of(posts_outdir);
    push_range(&mut v, &sv, 0, sv.len());
    proof {
        reveal_strlit("/");
        assert(sv@.subrange(0, sv@.len() as int) =~= sv@);
        assert(v@ =~= output_dir@ + "/"@ + posts_outdir@);
    }
    if !(v.len() > 0 && v[v.len() - 1] == '/') {
        v.push('/');
        proof {
            assert(v@ =~= (output_dir@ + "/"@ + posts_outdir@) + "/"@);
        }
    }
    let gv = chars_of(slug);
    push_range(&mut v, &gv, 0, gv.len());
    let hv = chars_of(".html");
    push_range(&mut v, &hv, 0, hv.len());
    proof {
        assert(gv@.subrange(0, gv@.len() as int) =~= gv@);
        assert(hv@.subrange(0, hv@.len() as int) =~= hv@);
        assert(v@ =~= spec_post_output_path(output_dir@, posts_outdir@, slug@));
    }
    string_from_chars(&v)
}

/// The output path of one tag's page: the tag, lower-cased for URL
/// consistency, under the fixed tags sub-path.
pub fn tag_output_path(output_dir: &str, tag: &str) -> (r: String)
    ensures
        r@ == output_dir@ + "/tags/"@ + lower_of(tag@) + ".html"@,
{
    let mut v = chars_of(output_dir);
    let tp = chars_of("/tags/");
    push_range(&mut v, &tp, 0, tp.len());
    let low = lowercase(tag);
    let lv = chars_of(low.as_str());
    push_range(&mut v, &lv, 0, lv.len());
    let hv = chars_of(".html");
    push_range(&mut v, &hv, 0, hv.len());
    proof {
        assert(tp@.subrange(0, tp@.len() as int) =~= tp@);
        assert(lv@.subrange(0, lv@.len() as int) =~= lv@);
        assert(hv@.subrange(0, hv@.len() as int) =~= hv@);
        assert(v@ =~= output_dir@ + "/tags/"@ + lower_of(tag@) + ".html"@);
    }
    string_from_chars(&v)
}

/// The output path of one pagination page: the root index for page one, a
/// numbered sub-directory's index for every later page.
pub fn page_output_path(output_dir: &str, number: u64) -> (r: String)
    ensures
        number == 1 ==> r@ == output_dir@ + "/index.html"@,
        number != 1 ==> r@ == output_dir@ + "/page/"@ + dec_chars(number as int)
            + "/index.html"@,
{
    if number == 1 {
        let mut v = chars_of(output_dir);
        let iv = chars_of("/index.html");
        push_range(&mut v, &iv, 0, iv.len());
        proof {
            assert(iv@.subrange(0, iv@.len() as int) =~= iv@);
            assert(v@ =~= output_dir@ + "/index.html"@);
        }
        string_from_chars(&v)
    } else {
        let mut v = chars_of(output_dir);
        let pv = chars_of("/page/");
        push_range(&mut v, &pv, 0, pv.len());
        let num = crate::text::u64_to_dec(number);
        let nv = chars_of(num.as_str());
        push_range(&mut v, &nv, 0, nv.len());
        let iv = chars_of("/index.html");
        push_range(&mut v, &iv, 0, iv.len());
        proof {
            assert(pv@.subrange(0, pv@.len() as int) =~= pv@);
            assert(nv@.subrange(0, nv@.len() as int) =~= nv@);
            assert(iv@.subrange(0, iv@.len() as int) =~= iv@);
            assert(v@ =~= output_dir@ + "/page/"@ + dec_chars(number as int) + "/index.html"@);
        }
        string_from_chars(&v)
    }
}

} // verus!
