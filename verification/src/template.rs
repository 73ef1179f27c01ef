//! The legacy tag resolver: a small text-substitution engine over
//! `{% ... %}` tags.
//!
//! A tag either sets or prints a variable, names a site or item field,
//! splices the rendered post list or the item body, pulls in a named include
//! (resolved recursively, to a fixed depth), or expands a shortcode with
//! positional arguments. An unknown tag prints a variable of that name when
//! one is set and otherwise stays in the text as written. Include and
//! shortcode texts are handed in as tables; reading them from disk is the
//! caller's work.

use vstd::prelude::*;
use crate::config::Config;
use crate::models::Post;
use crate::parser::{render_shortcode, shortcode_spec};
use crate::render::{first_match, first_match_exec, lemma_first_match};
use crate::text::{
    chars_of, check_match_at, copy_range, extract_range, matches_at, push_range, scan_non_ws,
    scan_non_ws_exec, scan_to, scan_to_exec, scan_ws, scan_ws_exec, string_from_chars,
    lemma_scan_non_ws, lemma_scan_ws, trim_range, trim_spec,
};

verus! {

/// One template variable.
pub struct Binding {
    pub key: String,
    pub value: String,
}

/// One named text: an include's or a shortcode's file content.
pub struct NamedText {
    pub name: String,
    pub text: String,
}

/// The values the tags draw from.
pub struct TagContext {
    pub base: String,
    pub base_url: String,
    pub site_title: String,
    pub site_description: String,
    pub site_author: String,
    pub posts_html: String,
    pub title: String,
    pub date: String,
    pub tags: Vec<String>,
    pub content_body: String,
    pub includes: Vec<NamedText>,
    pub shortcodes: Vec<NamedText>,
}

/// The mathematical model of a [`TagContext`].
pub struct TagContextView {
    pub base: Seq<char>,
    pub base_url: Seq<char>,
    pub site_title: Seq<char>,
    pub site_description: Seq<char>,
    pub site_author: Seq<char>,
    pub posts_html: Seq<char>,
    pub title: Seq<char>,
    pub date: Seq<char>,
    pub tags: Seq<Seq<char>>,
    pub content_body: Seq<char>,
    pub includes: Seq<(Seq<char>, Seq<char>)>,
    pub shortcodes: Seq<(Seq<char>, Seq<char>)>,
}

/// A table as name–text character sequences.
pub open spec fn table_view(table: Seq<NamedText>) -> Seq<(Seq<char>, Seq<char>)> {
    table.map_values(|n: NamedText| (n.name@, n.text@))
}

impl View for TagContext {
    type V = TagContextView;

    open spec fn view(&self) -> TagContextView {
        TagContextView {
            base: self.base@,
            base_url: self.base_url@,
            site_title: self.site_title@,
            site_description: self.site_description@,
            site_author: self.site_author@,
            posts_html: self.posts_html@,
            title: self.title@,
            date: self.date@,
            tags: self.tags.deep_view(),
            content_body: self.content_body@,
            includes: table_view(self.includes@),
            shortcodes: table_view(self.shortcodes@),
        }
    }
}

/// The variable store as key–value character sequences.
pub open spec fn vars_view(vars: Seq<Binding>) -> Seq<(Seq<char>, Seq<char>)> {
    vars.map_values(|b: Binding| (b.key@, b.value@))
}

/// The value a variable name resolves to: the latest one set.
pub open spec fn vars_lookup(vars: Seq<(Seq<char>, Seq<char>)>, key: Seq<char>) -> Option<
    Seq<char>,
>
    decreases vars.len(),
{
    if vars.len() == 0 {
        None
    } else if vars[vars.len() - 1].0 == key {
        Some(vars[vars.len() - 1].1)
    } else {
        vars_lookup(vars.drop_last(), key)
    }
}

/// The text a name resolves to in a table: the first entry carrying it.
pub open spec fn table_lookup(table: Seq<(Seq<char>, Seq<char>)>, name: Seq<char>) -> Option<
    Seq<char>,
>
    decreases table.len(),
{
    if table.len() == 0 {
        None
    } else if table[0].0 == name {
        Some(table[0].1)
    } else {
        table_lookup(table.drop_first(), name)
    }
}

/// The markup the item's tags render to: one span per tag, space-separated.
pub open spec fn tags_html(tags: Seq<Seq<char>>, i: int) -> Seq<char>
    decreases tags.len() - i,
{
    if i < 0 || i >= tags.len() {
        Seq::empty()
    } else {
        let piece = "<span class=\"tag\">"@ + tags[i] + "</span>"@;
        if i + 1 < tags.len() {
            piece + " "@ + tags_html(tags, i + 1)
        } else {
            piece
        }
    }
}

/// The whitespace-separated words of `[i, end)`.
pub open spec fn split_tokens(s: Seq<char>, i: int, end: int) -> Seq<Seq<char>>
    decreases end + 1 - i,
        via split_tokens_dec
{
    if !(0 <= i <= end && end <= s.len()) {
        Seq::empty()
    } else {
        let j = scan_non_ws(s, i, end);
        if j >= end {
            Seq::empty()
        } else {
            let k = scan_ws(s, j, end);
            seq![s.subrange(j, k)] + split_tokens(s, k, end)
        }
    }
}

#[via_fn]
proof fn split_tokens_dec(s: Seq<char>, i: int, end: int) {
    if 0 <= i <= end && end <= s.len() {
        lemma_scan_non_ws(s, i, end);
        let j = scan_non_ws(s, i, end);
        if j < end {
            lemma_scan_ws(s, j, end);
        }
    }
}

/// What one tag does: the text it contributes and the variables it leaves.
/// `s` and `i` name the scan position the tag was found at; `raw` is the
/// tag's appearance in the text, delimiters included.
pub open spec fn apply_tag(
    s: Seq<char>,
    i: int,
    tag: Seq<char>,
    raw: Seq<char>,
    ctx: TagContextView,
    vars: Seq<(Seq<char>, Seq<char>)>,
    depth: int,
) -> (Seq<char>, Seq<(Seq<char>, Seq<char>)>)
    decreases 11 - depth, s.len() - i, 1int,
{
    if matches_at(tag, 0, "set "@) {
        let e = scan_to(tag, 4, tag.len() as int, '=');
        if e < tag.len() {
            let key = trim_spec(tag.subrange(4, e));
            let val = trim_spec(tag.subrange(e + 1, tag.len() as int));
            (Seq::empty(), vars.push((key, val)))
        } else {
            (Seq::empty(), vars)
        }
    } else if matches_at(tag, 0, "print "@) {
        let key = trim_spec(tag.subrange(6, tag.len() as int));
        match vars_lookup(vars, key) {
            Some(v) => (v, vars),
            None => (Seq::empty(), vars),
        }
    } else if tag == "base"@ {
        (ctx.base, vars)
    } else if tag == "base_url"@ {
        (ctx.base_url, vars)
    } else if tag == "site_title"@ {
        (ctx.site_title, vars)
    } else if tag == "site_description"@ {
        (ctx.site_description, vars)
    } else if tag == "site_author"@ {
        (ctx.site_author, vars)
    } else if tag == "posts"@ {
        (ctx.posts_html, vars)
    } else if tag == "title"@ {
        (ctx.title, vars)
    } else if tag == "date"@ {
        (ctx.date, vars)
    } else if tag == "tags"@ {
        (tags_html(ctx.tags, 0), vars)
    } else if tag == "content"@ {
        (ctx.content_body, vars)
    } else if matches_at(tag, 0, "include "@) {
        let name = trim_spec(tag.subrange(8, tag.len() as int));
        if 0 <= depth <= 10 {
            match table_lookup(ctx.includes, name) {
                Some(inc) => resolve_spec(inc, ctx, vars, depth + 1),
                None => (Seq::empty(), vars),
            }
        } else {
            (Seq::empty(), vars)
        }
    } else if tag.len() > 0 && tag[0] == '.' {
        let tokens = split_tokens(tag, 1, tag.len() as int);
        if tokens.len() > 0 {
            match table_lookup(ctx.shortcodes, tokens[0]) {
                Some(tpl) => (shortcode_spec(tpl, tokens.drop_first(), 0), vars),
                None => (Seq::empty(), vars),
            }
        } else {
            (Seq::empty(), vars)
        }
    } else {
        match vars_lookup(vars, tag) {
            Some(v) => (v, vars),
            None => (raw, vars),
        }
    }
}

/// The scan from position `i`: text up to the next tag opener is kept, a
/// complete tag contributes what it resolves to, an opener without a closer
/// ends the scan with the rest of the text appended as the scan leaves it.
pub open spec fn scan_tags(
    s: Seq<char>,
    i: int,
    ctx: TagContextView,
    vars: Seq<(Seq<char>, Seq<char>)>,
    depth: int,
) -> (Seq<char>, Seq<(Seq<char>, Seq<char>)>)
    decreases 11 - depth, s.len() - i, 2int,
        via scan_tags_dec
{
    if !(0 <= i <= s.len() && 0 <= depth <= 10) {
        (Seq::empty(), vars)
    } else {
        let op = first_match(s, i, "{%"@);
        if op >= s.len() {
            (s.subrange(i, s.len() as int), vars)
        } else {
            let pre = s.subrange(i, op);
            let cl = first_match(s, op + 2, "%}"@);
            if cl >= s.len() {
                (pre + s.subrange(i, s.len() as int), vars)
            } else {
                let tag = trim_spec(s.subrange(op + 2, cl));
                let step = apply_tag(s, i, tag, s.subrange(op, cl + 2), ctx, vars, depth);
                let rest = scan_tags(s, cl + 2, ctx, step.1, depth);
                (pre + step.0 + rest.0, rest.1)
            }
        }
    }
}

#[via_fn]
proof fn scan_tags_dec(
    s: Seq<char>,
    i: int,
    ctx: TagContextView,
    vars: Seq<(Seq<char>, Seq<char>)>,
    depth: int,
) {
    if 0 <= i <= s.len() && 0 <= depth <= 10 {
        reveal_strlit("{%");
        reveal_strlit("%}");
        lemma_first_match(s, i, "{%"@);
        let op = first_match(s, i, "{%"@);
        if op < s.len() {
            lemma_first_match(s, op + 2, "%}"@);
        }
    }
}

/// What resolving a text yields: the expanded text and the variables left
/// set. Beyond the recursion budget the text is returned as it stands.
pub open spec fn resolve_spec(
    s: Seq<char>,
    ctx: TagContextView,
    vars: Seq<(Seq<char>, Seq<char>)>,
    depth: int,
) -> (Seq<char>, Seq<(Seq<char>, Seq<char>)>)
    decreases 11 - depth, s.len() + 1, 3int,
{
    if depth > 10 || depth < 0 {
        (s, vars)
    } else {
        scan_tags(s, 0, ctx, vars, depth)
    }
}

/// Finds a variable's current index: the latest binding of the key.
fn vars_get(vars: &Vec<Binding>, key: &String) -> (r: Option<usize>)
    ensures
        match r {
            Some(k) => k < vars@.len() && vars_lookup(vars_view(vars@), key@) == Some(
                vars@[k as int].value@,
            ),
            None => vars_lookup(vars_view(vars@), key@) is None,
        },
{
    let mut k: usize = vars.len();
    proof {
        assert(vars_view(vars@).subrange(0, vars@.len() as int) =~= vars_view(vars@));
    }
    while k > 0
        invariant
            k <= vars@.len(),
            vars_lookup(vars_view(vars@), key@) == vars_lookup(
                vars_view(vars@).subrange(0, k as int),
                key@,
            ),
        decreases k,
    {
        let ghost pre = vars_view(vars@).subrange(0, k as int);
        proof {
            assert(pre.len() == k);
            assert(pre[k - 1] == (vars@[k - 1].key@, vars@[k - 1].value@));
            assert(pre.drop_last() =~= vars_view(vars@).subrange(0, k - 1));
        }
        if vars[k - 1].key == *key {
            return Some(k - 1);
        }
        k = k - 1;
    }
    proof {
        assert(vars_view(vars@).subrange(0, 0) =~= Seq::<(Seq<char>, Seq<char>)>::empty());
    }
    None
}

/// Finds a name's entry in a table: the first one carrying it.
fn table_get(table: &Vec<NamedText>, name: &String) -> (r: Option<usize>)
    ensures
        match r {
            Some(k) => k < table@.len() && table_lookup(table_view(table@), name@) == Some(
                table@[k as int].text@,
            ),
            None => table_lookup(table_view(table@), name@) is None,
        },
{
    let mut k: usize = 0;
    proof {
        assert(table_view(table@).subrange(0, table@.len() as int) =~= table_view(table@));
    }
    while k < table.len()
        invariant
            k <= table@.len(),
            table_lookup(table_view(table@), name@) == table_lookup(
                table_view(table@).subrange(k as int, table@.len() as int),
                name@,
            ),
        decreases table@.len() - k,
    {
        let ghost suf = table_view(table@).subrange(k as int, table@.len() as int);
        proof {
            assert(suf[0] == (table@[k as int].name@, table@[k as int].text@));
            assert(suf.drop_first() =~= table_view(table@).subrange(
                k + 1,
                table@.len() as int,
            ));
        }
        if table[k].name == *name {
            return Some(k);
        }
        k = k + 1;
    }
    proof {
        assert(table_view(table@).subrange(
            table@.len() as int,
            table@.len() as int,
        ) =~= Seq::<(Seq<char>, Seq<char>)>::empty());
    }
    None
}

/// Renders the item's tags as markup.
fn render_tags_html(tags: &Vec<String>) -> (v: Vec<char>)
    ensures
        v@ == tags_html(tags.deep_view(), 0),
{
    let mut v: Vec<char> = Vec::new();
    let mut k: usize = 0;
    while k < tags.len()
        invariant
            k <= tags@.len(),
            tags.deep_view().len() == tags@.len(),
            tags_html(tags.deep_view(), 0) == v@ + tags_html(tags.deep_view(), k as int),
        decreases tags@.len() - k,
    {
        let ghost v0 = v@;
        let open_lit = chars_of("<span class=\"tag\">");
        push_range(&mut v, &open_lit, 0, open_lit.len());
        let tv = chars_of(tags[k].as_str());
        push_range(&mut v, &tv, 0, tv.len());
        let close_lit = chars_of("</span>");
        push_range(&mut v, &close_lit, 0, close_lit.len());
        proof {
            assert(open_lit@.subrange(0, open_lit@.len() as int) =~= open_lit@);
            assert(tv@.subrange(0, tv@.len() as int) =~= tv@);
            assert(close_lit@.subrange(0, close_lit@.len() as int) =~= close_lit@);
            assert(tags.deep_view()[k as int] == tags@[k as int]@);
        }
        if k + 1 < tags.len() {
            v.push(' ');
            proof {
                reveal_strlit(" ");
                assert(" "@ =~= seq![' ']);
                assert(v@ =~= v0 + ("<span class=\"tag\">"@ + tags.deep_view()[k as int]
                    + "</span>"@ + " "@));
            }
        } else {
            proof {
                assert(v@ =~= v0 + ("<span class=\"tag\">"@ + tags.deep_view()[k as int]
                    + "</span>"@));
            }
        }
        k = k + 1;
    }
    v
}

/// Splits a tag's argument words.
fn split_tokens_exec(cs: &Vec<char>, i: usize, end: usize) -> (out: Vec<String>)
    requires
        i <= end <= cs@.len(),
    ensures
        out.deep_view() == split_tokens(cs@, i as int, end as int),
{
    let mut out: Vec<String> = Vec::new();
    proof {
        assert(out.deep_view() =~= Seq::<Seq<char>>::empty());
    }
    let mut cur: usize = i;
    loop
        invariant_except_break
            i <= cur <= end <= cs@.len(),
            split_tokens(cs@, i as int, end as int) == out.deep_view() + split_tokens(
                cs@,
                cur as int,
                end as int,
            ),
        ensures
            out.deep_view() == split_tokens(cs@, i as int, end as int),
        decreases end - cur,
    {
        let j = scan_non_ws_exec(cs, cur, end);
        if j >= end {
            proof {
                assert(split_tokens(cs@, cur as int, end as int) =~= Seq::<Seq<char>>::empty());
                assert(out.deep_view() =~= out.deep_view() + split_tokens(
                    cs@,
                    cur as int,
                    end as int,
                ));
            }
            break;
        }
        let k = scan_ws_exec(cs, j, end);
        let ghost out0 = out.deep_view();
        out.push(extract_range(cs, j, k));
        proof {
            assert(out.deep_view() =~= out0 + seq![cs@.subrange(j as int, k as int)]);
            lemma_scan_ws(cs@, j as int, end as int);
        }
        cur = k;
    }
    out
}

/// Exec string comparison of the tag against a literal name.
fn range_is(tagv: &Vec<char>, lit: &str) -> (r: bool)
    ensures
        r == (tagv@ == lit@),
{
    let lv = chars_of(lit);
    if tagv.len() != lv.len() {
        return false;
    }
    let r = check_match_at(tagv, 0, &lv);
    proof {
        assert(tagv@.subrange(0, lv@.len() as int) =~= tagv@);
    }
    r
}

/// Appends a string's characters to the output.
fn append_str(out: &mut Vec<char>, s: &str)
    ensures
        final(out)@ == old(out)@ + s@,
{
    let sv = chars_of(s);
    push_range(out, &sv, 0, sv.len());
    proof {
        assert(sv@.subrange(0, sv@.len() as int) =~= sv@);
    }
}

/// The resolver over prepared character text.
#[verifier::rlimit(100)]
fn resolve_chars(cs: &Vec<char>, ctx: &TagContext, vars: &mut Vec<Binding>, depth: u32) -> (out:
    Vec<char>)
    ensures
        ({
            let res = resolve_spec(cs@, ctx@, vars_view(old(vars)@), depth as int);
            out@ == res.0 && vars_view(final(vars)@) == res.1
        }),
    decreases 11 - depth,
{
    proof {
        reveal_strlit("{%");
        reveal_strlit("%}");
    }
    if depth > 10 {
        return copy_range(cs, 0, cs.len());
    }
    let opat = chars_of("{%");
    let cpat = chars_of("%}");
    let mut out: Vec<char> = Vec::new();
    let mut i: usize = 0;
    let ghost res0 = scan_tags(cs@, 0, ctx@, vars_view(vars@), depth as int);
    proof {
        assert(cs@.subrange(0, cs@.len() as int) =~= cs@);
    }
    loop
        invariant_except_break
            i <= cs@.len(),
            depth <= 10,
            opat@ == "{%"@ && opat@.len() == 2,
            cpat@ == "%}"@ && cpat@.len() == 2,
            res0 == scan_tags(cs@, 0, ctx@, vars_view(old(vars)@), depth as int),
            ({
                let here = scan_tags(cs@, i as int, ctx@, vars_view(vars@), depth as int);
                res0.0 == out@ + here.0 && res0.1 == here.1
            }),
        ensures
            out@ == res0.0 && vars_view(vars@) == res0.1,
        decreases cs@.len() - i,
    {
        let ghost vars_in = vars_view(vars@);
        let n = cs.len();
        let op = first_match_exec(cs, i, &opat);
        if op >= cs.len() {
            let ghost out0 = out@;
            push_range(&mut out, cs, i, cs.len());
            proof {
                assert(scan_tags(cs@, i as int, ctx@, vars_in, depth as int).0 =~= cs@.subrange(
                    i as int,
                    cs@.len() as int,
                ));
                assert(out@ =~= out0 + cs@.subrange(i as int, cs@.len() as int));
            }
            break;
        }
        proof {
            lemma_first_match(cs@, i as int, "{%"@);
            assert(matches_at(cs@, op as int, "{%"@));
            assert(op + 2 <= cs@.len());
        }
        let cl = first_match_exec(cs, op + 2, &cpat);
        if cl >= cs.len() {
            let ghost out0 = out@;
            push_range(&mut out, cs, i, op);
            push_range(&mut out, cs, i, cs.len());
            proof {
                assert(out@ =~= out0 + (cs@.subrange(i as int, op as int) + cs@.subrange(
                    i as int,
                    cs@.len() as int,
                )));
            }
            break;
        }
        // a complete tag
        proof {
            lemma_first_match(cs@, op as int + 2, "%}"@);
            assert(matches_at(cs@, cl as int, "%}"@));
            assert(cl + 2 <= cs@.len());
        }
        let (ta, tb) = trim_range(cs, op + 2, cl);
        let tagv = copy_range(cs, ta, tb);
        let ghost tag = trim_spec(cs@.subrange(op as int + 2, cl as int));
        proof {
            assert(tagv@ == tag);
        }
        let ghost step = apply_tag(
            cs@,
            i as int,
            tag,
            cs@.subrange(op as int, cl as int + 2),
            ctx@,
            vars_in,
            depth as int,
        );
        let ghost out_before = out@;
        push_range(&mut out, cs, i, op);
        let ghost out_pre = out@;
        let set_lit = chars_of("set ");
        let print_lit = chars_of("print ");
        let include_lit = chars_of("include ");
        proof {
            reveal_strlit("set ");
            reveal_strlit("print ");
            reveal_strlit("include ");
        }
        if check_match_at(&tagv, 0, &set_lit) {
            let e = scan_to_exec(&tagv, 4, tagv.len(), '=');
            if e < tagv.len() {
                let (ka, kb) = trim_range(&tagv, 4, e);
                let (va, vb) = trim_range(&tagv, e + 1, tagv.len());
                let key = extract_range(&tagv, ka, kb);
                let value = extract_range(&tagv, va, vb);
                let ghost vars_before = vars_view(vars@);
                vars.push(Binding { key, value });
                proof {
                    assert(vars_view(vars@) =~= vars_before.push(
                        (
                            trim_spec(tag.subrange(4, e as int)),
                            trim_spec(tag.subrange(e as int + 1, tag.len() as int)),
                        ),
                    ));
                    assert(out@ =~= out_pre + step.0);
                    assert(vars_view(vars@) == step.1);
                }
            } else {
                proof {
                    assert(out@ =~= out_pre + step.0);
                    assert(vars_view(vars@) == step.1);
                }
            }
        } else if check_match_at(&tagv, 0, &print_lit) {
            let (ka, kb) = trim_range(&tagv, 6, tagv.len());
            let key = extract_range(&tagv, ka, kb);
            match vars_get(vars, &key) {
                Some(k) => {
                    let vv = chars_of(vars[k].value.as_str());
                    push_range(&mut out, &vv, 0, vv.len());
                    proof {
                        assert(vv@.subrange(0, vv@.len() as int) =~= vv@);
                        assert(out@ =~= out_pre + step.0);
                    }
                },
                None => {
                    proof {
                        assert(out@ =~= out_pre + step.0);
                    }
                },
            }
        } else if range_is(&tagv, "base") {
            append_str(&mut out, ctx.base.as_str());
            proof {
                assert(out@ =~= out_pre + step.0);
            }
        } else if range_is(&tagv, "base_url") {
            append_str(&mut out, ctx.base_url.as_str());
            proof {
                assert(out@ =~= out_pre + step.0);
            }
        } else if range_is(&tagv, "site_title") {
            append_str(&mut out, ctx.site_title.as_str());
            proof {
                assert(out@ =~= out_pre + step.0);
            }
        } else if range_is(&tagv, "site_description") {
            append_str(&mut out, ctx.site_description.as_str());
            proof {
                assert(out@ =~= out_pre + step.0);
            }
        } else if range_is(&tagv, "site_author") {
            append_str(&mut out, ctx.site_author.as_str());
            proof {
                assert(out@ =~= out_pre + step.0);
            }
        } else if range_is(&tagv, "posts") {
            append_str(&mut out, ctx.posts_html.as_str());
            proof {
                assert(out@ =~= out_pre + step.0);
            }
        } else if range_is(&tagv, "title") {
            append_str(&mut out, ctx.title.as_str());
            proof {
                assert(out@ =~= out_pre + step.0);
            }
        } else if range_is(&tagv, "date") {
            append_str(&mut out, ctx.date.as_str());
            proof {
                assert(out@ =~= out_pre + step.0);
            }
        } else if range_is(&tagv, "tags") {
            let th = render_tags_html(&ctx.tags);
            push_range(&mut out, &th, 0, th.len());
            proof {
                assert(th@.subrange(0, th@.len() as int) =~= th@);
                assert(out@ =~= out_pre + step.0);
            }
        } else if range_is(&tagv, "content") {
            append_str(&mut out, ctx.content_body.as_str());
            proof {
                assert(out@ =~= out_pre + step.0);
            }
        } else if check_match_at(&tagv, 0, &include_lit) {
            let (na, nb) = trim_range(&tagv, 8, tagv.len());
            let name = extract_range(&tagv, na, nb);
            match table_get(&ctx.includes, &name) {
                Some(k) => {
                    let inc_cs = chars_of(ctx.includes[k].text.as_str());
                    let sub = resolve_chars(&inc_cs, ctx, vars, depth + 1);
                    push_range(&mut out, &sub, 0, sub.len());
                    proof {
                        assert(sub@.subrange(0, sub@.len() as int) =~= sub@);
                        assert(out@ =~= out_pre + step.0);
                        assert(vars_view(vars@) == step.1);
                    }
                },
                None => {
                    proof {
                        assert(out@ =~= out_pre + step.0);
                    }
                },
            }
        } else if tagv.len() > 0 && tagv[0] == '.' {
            let mut tokens = split_tokens_exec(&tagv, 1, tagv.len());
            if tokens.len() > 0 {
                let ghost toks = tokens.deep_view();
                let name = tokens.remove(0);
                proof {
                    assert(name@ == toks[0]);
                    assert(tokens.deep_view() =~= toks.drop_first());
                }
                match table_get(&ctx.shortcodes, &name) {
                    Some(k) => {
                        let rendered = render_shortcode(ctx.shortcodes[k].text.as_str(), &tokens);
                        append_str(&mut out, rendered.as_str());
                        proof {
                            assert(out@ =~= out_pre + step.0);
                        }
                    },
                    None => {
                        proof {
                            assert(out@ =~= out_pre + step.0);
                        }
                    },
                }
            } else {
                proof {
                    assert(out@ =~= out_pre + step.0);
                }
            }
        } else {
            let whole = extract_range(&tagv, 0, tagv.len());
            proof {
                assert(tagv@.subrange(0, tagv@.len() as int) =~= tagv@);
                assert(whole@ == tag);
            }
            match vars_get(vars, &whole) {
                Some(k) => {
                    let vv = chars_of(vars[k].value.as_str());
                    push_range(&mut out, &vv, 0, vv.len());
                    proof {
                        assert(vv@.subrange(0, vv@.len() as int) =~= vv@);
                        assert(out@ =~= out_pre + step.0);
                    }
                },
                None => {
                    push_range(&mut out, cs, op, cl + 2);
                    proof {
                        assert(out@ =~= out_pre + step.0);
                    }
                },
            }
        }
        proof {
            let here = scan_tags(cs@, i as int, ctx@, vars_in, depth as int);
            let rest = scan_tags(cs@, cl as int + 2, ctx@, step.1, depth as int);
            assert(vars_view(vars@) == step.1);
            assert(here.0 =~= cs@.subrange(i as int, op as int) + step.0 + rest.0);
            assert(here.1 == rest.1);
            assert(out@ =~= out_before + (cs@.subrange(i as int, op as int) + step.0));
            assert(res0.0 =~= out@ + rest.0);
        }
        i = cl + 2;
    }
    out
}

/// The tag context a resolution runs against, as a model value.
pub open spec fn make_tag_context(
    config: Config,
    posts_html: Seq<char>,
    post: Post,
    content_body: Seq<char>,
    includes: Seq<NamedText>,
    shortcodes: Seq<NamedText>,
) -> TagContextView {
    TagContextView {
        base: config.base@,
        base_url: config.base_url@,
        site_title: config.site.title@,
        site_description: config.site.description@,
        site_author: config.site.author@,
        posts_html: posts_html,
        title: post.title@,
        date: post.date@,
        tags: post.tags.deep_view(),
        content_body: content_body,
        includes: table_view(includes),
        shortcodes: table_view(shortcodes),
    }
}

/// Clones a list of strings.
fn clone_string_vec(v: &Vec<String>) -> (r: Vec<String>)
    ensures
        r@ == v@,
{
    let mut r: Vec<String> = Vec::new();
    let mut k: usize = 0;
    while k < v.len()
        invariant
            k <= v@.len(),
            r@ == v@.subrange(0, k as int),
        decreases v@.len() - k,
    {
        r.push(v[k].clone());
        k = k + 1;
        proof {
            assert(r@ =~= v@.subrange(0, k as int));
        }
    }
    proof {
        assert(v@.subrange(0, v@.len() as int) =~= v@);
    }
    r
}

/// Resolves every `{% ... %}` tag in the content against the configuration,
/// the item, the rendered post list and the variable store, reading include
/// and shortcode texts from the given tables; nesting is cut off at a fixed
/// depth, beyond which content is returned as written.
pub fn resolve_tags(
    content: &str,
    config: &Config,
    posts_html: &str,
    post: &Post,
    body: Option<&str>,
    depth: u32,
    vars: &mut Vec<Binding>,
    includes: Vec<NamedText>,
    shortcodes: Vec<NamedText>,
) -> (r: String)
    ensures
        ({
            let ctxv = make_tag_context(
                *config,
                posts_html@,
                *post,
                match body {
                    Some(b) => b@,
                    None => post.raw_content@,
                },
                includes@,
                shortcodes@,
            );
            let res = resolve_spec(content@, ctxv, vars_view(old(vars)@), depth as int);
            r@ == res.0 && vars_view(final(vars)@) == res.1
        }),
{
    let cs = chars_of(content);
    let content_body: String = match body {
        Some(b) => b.to_owned(),
        None => post.raw_content.clone(),
    };
    let ctx = TagContext {
        base: config.base.clone(),
        base_url: config.base_url.clone(),
        site_title: config.site.title.clone(),
        site_description: config.site.description.clone(),
        site_author: config.site.author.clone(),
        posts_html: posts_html.to_owned(),
        title: post.title.clone(),
        date: post.date.clone(),
        tags: clone_string_vec(&post.tags),
        content_body,
        includes,
        shortcodes,
    };
    proof {
        assert(ctx@ == make_tag_context(
            *config,
            posts_html@,
            *post,
            match body {
                Some(b) => b@,
                None => post.raw_content@,
            },
            ctx.includes@,
            ctx.shortcodes@,
        ));
    }
    let out = resolve_chars(&cs, &ctx, vars, depth);
    string_from_chars(&out)
}

} // verus!
