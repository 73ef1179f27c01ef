//! Content ingestion: front-matter extraction and shortcode expansion.
//!
//! A markdown source may open with a front-matter block fenced by `---`
//! lines. Inside it, `key: value` lines set the item's title, date and tags;
//! the title is unquoted, the tags split on commas, each trimmed, unquoted
//! and dropped when empty. Later lines override earlier ones. The body is
//! what follows the closing fence, surrounding whitespace removed. A source
//! without a complete front-matter block is taken whole as the body, with
//! the slug standing in for the title.

use vstd::prelude::*;
use crate::models::{Post, PostView};
use crate::text::{
    chars_of, check_match_at, dec_chars, extract_range, matches_at, quote_trim, quote_trim_range,
    scan_to, scan_to_exec, string_from_chars, lemma_scan_to, push_range, trim_range, trim_spec,
    u64_to_dec,
};

verus! {

/// The three front-matter fields a block can set.
pub struct FmFields {
    pub title: Seq<char>,
    pub date: Seq<char>,
    pub tags: Seq<Seq<char>>,
}

/// A front-matter fence `---` occurs at position `j`.
pub open spec fn sep_at(s: Seq<char>, j: int) -> bool {
    &&& 0 <= j
    &&& j + 3 <= s.len()
    &&& s[j] == '-'
    &&& s[j + 1] == '-'
    &&& s[j + 2] == '-'
}

/// The first fence position at or after `i`; the text's length when none.
pub open spec fn first_sep(s: Seq<char>, i: int) -> int
    decreases s.len() - i,
{
    if i < 0 || i + 3 > s.len() {
        s.len() as int
    } else if sep_at(s, i) {
        i
    } else {
        first_sep(s, i + 1)
    }
}

/// The tag list a `tags:` value yields: the value split on commas, each
/// piece trimmed and unquoted, empty pieces dropped.
pub open spec fn parse_tags(s: Seq<char>, i: int, end: int) -> Seq<Seq<char>>
    decreases end + 1 - i,
        via parse_tags_dec
{
    if !(0 <= i <= end && end <= s.len()) {
        Seq::empty()
    } else {
        let j = scan_to(s, i, end, ',');
        let piece = quote_trim(trim_spec(s.subrange(i, j)));
        let rest = if j >= end {
            Seq::<Seq<char>>::empty()
        } else {
            parse_tags(s, j + 1, end)
        };
        if piece.len() == 0 {
            rest
        } else {
            seq![piece] + rest
        }
    }
}

#[via_fn]
proof fn parse_tags_dec(s: Seq<char>, i: int, end: int) {
    if 0 <= i <= end && end <= s.len() {
        lemma_scan_to(s, i, end, ',');
    }
}

/// What one front-matter line `[lo, hi)` does to the fields: a `key: value`
/// line sets the key's field, any other line changes nothing.
pub open spec fn fm_line_at(s: Seq<char>, lo: int, hi: int, st: FmFields) -> FmFields {
    let j = scan_to(s, lo, hi, ':');
    if j >= hi {
        st
    } else {
        let k = trim_spec(s.subrange(lo, j));
        if k == "title"@ {
            FmFields {
                title: quote_trim(trim_spec(s.subrange(j + 1, hi))),
                date: st.date,
                tags: st.tags,
            }
        } else if k == "date"@ {
            FmFields { title: st.title, date: trim_spec(s.subrange(j + 1, hi)), tags: st.tags }
        } else if k == "tags"@ {
            FmFields { title: st.title, date: st.date, tags: parse_tags(s, j + 1, hi) }
        } else {
            st
        }
    }
}

/// Where the line starting at `i` ends once a trailing carriage return is
/// dropped, `nl` being the position of the line's newline or the block's end.
pub open spec fn line_end_nocr(s: Seq<char>, i: int, nl: int) -> int {
    if nl > i && nl - 1 < s.len() && s[nl - 1] == '\r' {
        nl - 1
    } else {
        nl
    }
}

/// The fields after every line of the block `[i, end)` is applied in order.
pub open spec fn fm_scan(s: Seq<char>, i: int, end: int, st: FmFields) -> FmFields
    decreases end + 1 - i,
        via fm_scan_dec
{
    if !(0 <= i < end && end <= s.len()) {
        st
    } else {
        let nl = scan_to(s, i, end, '\n');
        let st2 = fm_line_at(s, i, line_end_nocr(s, i, nl), st);
        fm_scan(s, nl + 1, end, st2)
    }
}

#[via_fn]
proof fn fm_scan_dec(s: Seq<char>, i: int, end: int, st: FmFields) {
    if 0 <= i < end && end <= s.len() {
        lemma_scan_to(s, i, end, '\n');
    }
}

/// Whether the text opens with a complete front-matter block: a fence at the
/// start and a second fence somewhere after it.
pub open spec fn has_frontmatter(raw: Seq<char>) -> bool {
    sep_at(raw, 0) && first_sep(raw, 3) + 3 <= raw.len()
}

/// The item that parsing a raw source yields.
pub open spec fn spec_parse_frontmatter(raw: Seq<char>, slug: Seq<char>, mtime: u64) -> PostView {
    let init = FmFields { title: slug, date: Seq::empty(), tags: Seq::empty() };
    if has_frontmatter(raw) {
        let q = first_sep(raw, 3);
        let f = fm_scan(raw, 3, q, init);
        PostView {
            slug: slug,
            title: f.title,
            date: f.date,
            tags: f.tags,
            raw_content: trim_spec(raw.subrange(q + 3, raw.len() as int)),
            mtime: mtime,
        }
    } else {
        PostView {
            slug: slug,
            title: slug,
            date: Seq::empty(),
            tags: Seq::empty(),
            raw_content: raw,
            mtime: mtime,
        }
    }
}

/// Exec scan for [`first_sep`].
fn first_sep_exec(cs: &Vec<char>, i: usize) -> (r: usize)
    requires
        3 <= cs@.len(),
        i <= cs@.len(),
    ensures
        r as int == first_sep(cs@, i as int),
        i <= r <= cs@.len(),
{
    let mut k: usize = i;
    while k <= cs.len() - 3 && !(cs[k] == '-' && cs[k + 1] == '-' && cs[k + 2] == '-')
        invariant
            3 <= cs@.len(),
            i <= k <= cs@.len(),
            first_sep(cs@, i as int) == first_sep(cs@, k as int),
        decreases cs@.len() - k,
    {
        k = k + 1;
    }
    if k <= cs.len() - 3 {
        k
    } else {
        proof {
            assert(first_sep(cs@, k as int) == cs@.len());
        }
        cs.len()
    }
}

/// Exec splitter for [`parse_tags`].
fn parse_tags_exec(cs: &Vec<char>, i: usize, end: usize) -> (out: Vec<String>)
    requires
        i <= end <= cs@.len(),
    ensures
        out.deep_view() == parse_tags(cs@, i as int, end as int),
{
    let mut out: Vec<String> = Vec::new();
    proof {
        assert(out.deep_view() =~= Seq::<Seq<char>>::empty());
    }
    let mut cur: usize = i;
    loop
        invariant_except_break
            i <= cur <= end <= cs@.len(),
            parse_tags(cs@, i as int, end as int) == out.deep_view() + parse_tags(
                cs@,
                cur as int,
                end as int,
            ),
        ensures
            out.deep_view() == parse_tags(cs@, i as int, end as int),
        decreases end - cur,
    {
        let j = scan_to_exec(cs, cur, end, ',');
        let ghost out0 = out.deep_view();
        let (ta, tb) = trim_range(cs, cur, j);
        let (qa, qb) = quote_trim_range(cs, ta, tb);
        if qb > qa {
            let piece = extract_range(cs, qa, qb);
            out.push(piece);
            proof {
                assert(out.deep_view() =~= out0 + seq![cs@.subrange(qa as int, qb as int)]);
            }
        } else {
            proof {
                assert(quote_trim(trim_spec(cs@.subrange(cur as int, j as int))).len() == 0);
                assert(out.deep_view() =~= out0);
            }
        }
        if j >= end {
            break;
        }
        cur = j + 1;
    }
    out
}

/// Applies one front-matter line to the fields.
fn apply_line(
    cs: &Vec<char>,
    lo: usize,
    hi: usize,
    title: &mut String,
    date: &mut String,
    tags: &mut Vec<String>,
)
    requires
        lo <= hi <= cs@.len(),
    ensures
        (FmFields {
            title: final(title)@,
            date: final(date)@,
            tags: final(tags).deep_view(),
        }) == fm_line_at(
            cs@,
            lo as int,
            hi as int,
            FmFields { title: old(title)@, date: old(date)@, tags: old(tags).deep_view() },
        ),
{
    let j = scan_to_exec(cs, lo, hi, ':');
    if j >= hi {
        return;
    }
    let (ka, kb) = trim_range(cs, lo, j);
    let title_lit = chars_of("title");
    let date_lit = chars_of("date");
    let tags_lit = chars_of("tags");
    if kb - ka == title_lit.len() && check_match_at(cs, ka, &title_lit) {
        proof {
            assert(cs@.subrange(ka as int, kb as int) =~= cs@.subrange(
                ka as int,
                ka + title_lit@.len(),
            ));
        }
        let (a, b) = trim_range(cs, j + 1, hi);
        let (qa, qb) = quote_trim_range(cs, a, b);
        *title = extract_range(cs, qa, qb);
    } else if kb - ka == date_lit.len() && check_match_at(cs, ka, &date_lit) {
        proof {
            assert(cs@.subrange(ka as int, kb as int) =~= cs@.subrange(
                ka as int,
                ka + date_lit@.len(),
            ));
            assert(trim_spec(cs@.subrange(lo as int, j as int)) != "title"@);
        }
        let (a, b) = trim_range(cs, j + 1, hi);
        *date = extract_range(cs, a, b);
    } else if kb - ka == tags_lit.len() && check_match_at(cs, ka, &tags_lit) {
        proof {
            assert(cs@.subrange(ka as int, kb as int) =~= cs@.subrange(
                ka as int,
                ka + tags_lit@.len(),
            ));
            assert(trim_spec(cs@.subrange(lo as int, j as int)) != "title"@);
            assert(trim_spec(cs@.subrange(lo as int, j as int)) != "date"@);
        }
        *tags = parse_tags_exec(cs, j + 1, hi);
    } else {
        proof {
            let k = trim_spec(cs@.subrange(lo as int, j as int));
            assert(k == cs@.subrange(ka as int, kb as int));
            assert(k != "title"@ && k != "date"@ && k != "tags"@) by {
                if k == "title"@ {
                    assert(cs@.subrange(ka as int, ka + title_lit@.len()) =~= k);
                }
                if k == "date"@ {
                    assert(cs@.subrange(ka as int, ka + date_lit@.len()) =~= k);
                }
                if k == "tags"@ {
                    assert(cs@.subrange(ka as int, ka + tags_lit@.len()) =~= k);
                }
            }
        }
    }
}

/// Parses front matter from a raw source and returns the content item.
///
/// The block is read only when a `---` fence opens the text and a second one
/// follows; the fields default to the slug, an empty date and no tags, and
/// the body is the text after the closing fence, trimmed — or the whole text
/// when no block is found.
pub fn parse_frontmatter(raw: &str, slug: &str, mtime: u64) -> (p: Post)
    ensures
        p@ == spec_parse_frontmatter(raw@, slug@, mtime),
{
    let cs = chars_of(raw);
    let no_fm_tags: Vec<String> = Vec::new();
    proof {
        assert(no_fm_tags.deep_view() =~= Seq::<Seq<char>>::empty());
    }
    if !(cs.len() >= 3 && cs[0] == '-' && cs[1] == '-' && cs[2] == '-') {
        return Post {
            slug: slug.to_owned(),
            title: slug.to_owned(),
            date: String::new(),
            tags: no_fm_tags,
            raw_content: raw.to_owned(),
            mtime,
        };
    }
    let q = first_sep_exec(&cs, 3);
    if q > cs.len() - 3 {
        proof {
            assert(!has_frontmatter(cs@));
        }
        return Post {
            slug: slug.to_owned(),
            title: slug.to_owned(),
            date: String::new(),
            tags: no_fm_tags,
            raw_content: raw.to_owned(),
            mtime,
        };
    }
    proof {
        assert(has_frontmatter(cs@));
    }
    let ghost init = FmFields {
        title: slug@,
        date: Seq::empty(),
        tags: Seq::empty(),
    };
    let mut title: String = slug.to_owned();
    let mut date: String = String::new();
    let mut tags: Vec<String> = Vec::new();
    proof {
        assert(tags.deep_view() =~= Seq::<Seq<char>>::empty());
        assert((FmFields { title: title@, date: date@, tags: tags.deep_view() }) == init);
    }
    let mut cur: usize = 3;
    while cur < q
        invariant
            3 <= cur <= q + 1,
            q + 3 <= cs@.len(),
            q <= usize::MAX - 3,
            fm_scan(cs@, 3, q as int, init) == fm_scan(
                cs@,
                cur as int,
                q as int,
                FmFields { title: title@, date: date@, tags: tags.deep_view() },
            ),
        decreases q + 1 - cur,
    {
        let nl = scan_to_exec(&cs, cur, q, '\n');
        let line_hi: usize = if nl > cur && cs[nl - 1] == '\r' {
            nl - 1
        } else {
            nl
        };
        proof {
            assert(line_hi as int == line_end_nocr(cs@, cur as int, nl as int));
        }
        let ghost before = FmFields { title: title@, date: date@, tags: tags.deep_view() };
        apply_line(&cs, cur, line_hi, &mut title, &mut date, &mut tags);
        proof {
            let after = FmFields { title: title@, date: date@, tags: tags.deep_view() };
            assert(after == fm_line_at(cs@, cur as int, line_hi as int, before));
            assert(fm_scan(cs@, cur as int, q as int, before) == fm_scan(
                cs@,
                nl + 1,
                q as int,
                after,
            ));
        }
        cur = nl + 1;
    }
    let (ca, cb) = trim_range(&cs, q + 3, cs.len());
    let content = extract_range(&cs, ca, cb);
    Post { slug: slug.to_owned(), title, date, tags, raw_content: content, mtime }
}

/// The shortcode placeholder for one positional argument.
pub open spec fn placeholder(n: int) -> Seq<char> {
    "{%% "@ + dec_chars(n) + " %%}"@
}

/// The text's tail from `i` with every occurrence of `pat` replaced by
/// `rep`, leftmost first, never rescanning what `rep` inserted.
pub open spec fn replace_from(s: Seq<char>, i: int, pat: Seq<char>, rep: Seq<char>) -> Seq<char>
    decreases s.len() - i,
{
    if i < 0 || i >= s.len() {
        Seq::empty()
    } else if pat.len() > 0 && matches_at(s, i, pat) {
        rep + replace_from(s, i + pat.len(), pat, rep)
    } else {
        seq![s[i]] + replace_from(s, i + 1, pat, rep)
    }
}

/// The expansion state after the first `k` arguments are substituted.
pub open spec fn shortcode_spec(t: Seq<char>, args: Seq<Seq<char>>, k: int) -> Seq<char>
    decreases args.len() - k,
{
    if k < 0 || k >= args.len() {
        t
    } else {
        shortcode_spec(replace_from(t, 0, placeholder(k + 1), args[k]), args, k + 1)
    }
}

/// Replaces every occurrence of `pat` in `cs` with `rep`.
fn replace_all_exec(cs: &Vec<char>, pat: &Vec<char>, rep: &Vec<char>) -> (out: Vec<char>)
    ensures
        out@ == replace_from(cs@, 0, pat@, rep@),
{
    let mut out: Vec<char> = Vec::new();
    let mut i: usize = 0;
    while i < cs.len()
        invariant
            i <= cs@.len(),
            replace_from(cs@, 0, pat@, rep@) == out@ + replace_from(cs@, i as int, pat@, rep@),
        decreases cs@.len() - i,
    {
        let ghost out0 = out@;
        if pat.len() > 0 && check_match_at(cs, i, pat) {
            push_range(&mut out, rep, 0, rep.len());
            proof {
                assert(rep@.subrange(0, rep@.len() as int) =~= rep@);
                assert(out@ =~= out0 + rep@);
            }
            i = i + pat.len();
        } else {
            out.push(cs[i]);
            proof {
                assert(out@ =~= out0 + seq![cs@[i as int]]);
            }
            i = i + 1;
        }
    }
    proof {
        assert(replace_from(cs@, i as int, pat@, rep@) =~= Seq::<char>::empty());
        assert(out@ =~= out@ + replace_from(cs@, i as int, pat@, rep@));
    }
    out
}

/// Replaces the positional placeholders in a shortcode template with the
/// given arguments, the first argument filling the placeholder numbered one,
/// each substitution applied to the previous one's output.
pub fn render_shortcode(template: &str, args: &Vec<String>) -> (r: String)
    ensures
        r@ == shortcode_spec(template@, args.deep_view(), 0),
{
    let mut current: Vec<char> = chars_of(template);
    let mut k: usize = 0;
    while k < args.len()
        invariant
            k <= args@.len(),
            shortcode_spec(template@, args.deep_view(), 0) == shortcode_spec(
                current@,
                args.deep_view(),
                k as int,
            ),
        decreases args@.len() - k,
    {
        let num = u64_to_dec((k + 1) as u64);
        let mut pat: Vec<char> = chars_of("{%% ");
        let numv = chars_of(num.as_str());
        push_range(&mut pat, &numv, 0, numv.len());
        let tailv = chars_of(" %%}");
        push_range(&mut pat, &tailv, 0, tailv.len());
        proof {
            assert(numv@.subrange(0, numv@.len() as int) =~= numv@);
            assert(tailv@.subrange(0, tailv@.len() as int) =~= tailv@);
            assert(pat@ =~= placeholder(k + 1 as int));
        }
        let repv = chars_of(args[k].as_str());
        proof {
            assert(args.deep_view()[k as int] == args@[k as int]@);
        }
        current = replace_all_exec(&current, &pat, &repv);
        k = k + 1;
    }
    string_from_chars(&current)
}

} // verus!
