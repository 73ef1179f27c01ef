//! Finishing of rendered pages: dev-script injection, minification, and the
//! render-stage decisions around them.
//!
//! In serve mode every page carries a small script that listens on the
//! live-reload socket and reloads the browser when a rebuild completes; it is
//! inserted before the closing body tag, or appended when none exists.
//! Minification is the external minifier's work, relied on at its boundary.

use vstd::prelude::*;
use crate::rewrite::{rewrite_spec, rewrite_to_webp};
use crate::text::{chars_of, check_match_at, matches_at, push_range, string_from_chars};

verus! {

/// The script injected in serve mode: a socket client that reloads the page
/// when the server announces a completed rebuild.
pub fn live_reload_script() -> (r: &'static str)
    ensures
        r@ == spec_live_reload_script(),
{
    "\n<script id=\"novos-live-reload\">\n(function() {\n    const socket = new WebSocket('ws://' + window.location.host + '/novos/live');\n    socket.onmessage = (event) => {\n        if (event.data === 'reload') {\n            console.log('novos: Change detected, reloading...');\n            window.location.reload();\n        }\n    };\n    socket.onclose = () => console.log('novos: Live reload disconnected.');\n})();\n</script>\n"
}

/// The injected script's text.
pub open spec fn spec_live_reload_script() -> Seq<char> {
    "\n<script id=\"novos-live-reload\">\n(function() {\n    const socket = new WebSocket('ws://' + window.location.host + '/novos/live');\n    socket.onmessage = (event) => {\n        if (event.data === 'reload') {\n            console.log('novos: Change detected, reloading...');\n            window.location.reload();\n        }\n    };\n    socket.onclose = () => console.log('novos: Live reload disconnected.');\n})();\n</script>\n"@
}

/// The first position where `pat` occurs in `s` at or after `i`; the text's
/// length when it does not.
pub open spec fn first_match(s: Seq<char>, i: int, pat: Seq<char>) -> int
    decreases s.len() - i,
{
    if i < 0 || i + pat.len() > s.len() || pat.len() == 0 {
        s.len() as int
    } else if matches_at(s, i, pat) {
        i
    } else {
        first_match(s, i + 1, pat)
    }
}

pub proof fn lemma_first_match(s: Seq<char>, i: int, pat: Seq<char>)
    requires
        0 <= i <= s.len(),
        pat.len() > 0,
    ensures
        i <= first_match(s, i, pat) <= s.len(),
        first_match(s, i, pat) < s.len() ==> matches_at(s, first_match(s, i, pat), pat),
    decreases s.len() - i,
{
    if !(i + pat.len() > s.len()) && !matches_at(s, i, pat) {
        lemma_first_match(s, i + 1, pat);
    }
}

/// Exec scan for [`first_match`], from a given start.
pub fn first_match_exec(cs: &Vec<char>, from: usize, pat: &Vec<char>) -> (r: usize)
    requires
        pat@.len() > 0,
        from <= cs@.len(),
    ensures
        r as int == first_match(cs@, from as int, pat@),
        from <= r <= cs@.len(),
{
    let n = cs.len();
    let mut i: usize = from;
    while i < n && !(pat.len() <= n - i && check_match_at(cs, i, pat))
        invariant
            from <= i <= n,
            n == cs@.len(),
            pat@.len() > 0,
            first_match(cs@, from as int, pat@) == first_match(cs@, i as int, pat@),
        decreases n - i,
    {
        i = i + 1;
    }
    if i < n {
        proof {
            assert(first_match(cs@, i as int, pat@) == i);
        }
        i
    } else {
        proof {
            assert(first_match(cs@, i as int, pat@) == cs@.len());
        }
        proof {
            lemma_first_match(cs@, from as int, pat@);
        }
        n
    }
}

/// The page text with the live-reload script inserted before the closing
/// body tag, or appended when the page has none.
pub open spec fn spec_inject_script(html: Seq<char>) -> Seq<char> {
    let pos = first_match(html, 0, "</body>"@);
    if pos < html.len() {
        html.subrange(0, pos) + spec_live_reload_script() + html.subrange(pos, html.len() as int)
    } else {
        html + spec_live_reload_script()
    }
}

/// Relies on `minify_html::minify` only for safety: it is a total function
/// from text to bytes, and the wrapper falls back to its input when the
/// minified bytes are not valid text, so no admitted input aborts. Its output
/// is deliberately not modeled: with script minification on, the embedded
/// script minifier emits hoisted declarations in hash-map iteration order,
/// which can differ from one process to the next, so no function of the
/// arguments describes the result.
#[verifier::external_body]
fn minify_html_text(html: String, minify_js: bool, minify_css: bool, keep_comments: bool) -> (r:
    String)
{
    let mut cfg = minify_html::Cfg::new();
    cfg.minify_js = minify_js;
    cfg.minify_css = minify_css;
    cfg.keep_comments = keep_comments;
    let out = minify_html::minify(html.as_bytes(), &cfg);
    String::from_utf8(out).unwrap_or(html)
}

/// The page text as the minifier receives it: the dev script injected in
/// serve mode, the template output unchanged otherwise.
pub open spec fn spec_injected(html: Seq<char>, is_dev: bool) -> Seq<char> {
    if is_dev {
        spec_inject_script(html)
    } else {
        html
    }
}

/// Finishes one rendered page: injects the live-reload script in serve mode
/// and minifies when the build asks for it. Without minification the result
/// is the injected text exactly; with it, the result is whatever the
/// minifier returns for the injected text of this call — the minifier's
/// output is not a function of its input alone, so nothing more can be
/// promised of it.
pub fn process_html(html: String, should_minify: bool, is_dev: bool) -> (r: String)
    ensures
        !should_minify ==> r@ == spec_injected(html@, is_dev),
{
    let injected: String = if is_dev {
        let cs = chars_of(html.as_str());
        let pat = chars_of("</body>");
        proof {
            reveal_strlit("</body>");
        }
        let pos = first_match_exec(&cs, 0, &pat);
        let mut v: Vec<char> = Vec::new();
        if pos < cs.len() {
            push_range(&mut v, &cs, 0, pos);
            let sv = chars_of(live_reload_script());
            push_range(&mut v, &sv, 0, sv.len());
            push_range(&mut v, &cs, pos, cs.len());
            proof {
                assert(sv@.subrange(0, sv@.len() as int) =~= sv@);
                assert(v@ =~= spec_inject_script(html@));
            }
        } else {
            push_range(&mut v, &cs, 0, cs.len());
            let sv = chars_of(live_reload_script());
            push_range(&mut v, &sv, 0, sv.len());
            proof {
                assert(cs@.subrange(0, cs@.len() as int) =~= cs@);
                assert(sv@.subrange(0, sv@.len() as int) =~= sv@);
                assert(v@ =~= spec_inject_script(html@));
            }
        }
        string_from_chars(&v)
    } else {
        html
    };
    if should_minify {
        minify_html_text(injected, true, true, false)
    } else {
        injected
    }
}

/// Turns one item's template output into the final page text: dev script,
/// minification, and — when image optimization is on — the reference
/// rewrite. Without minification the result is pinned exactly; with it, the
/// result is still the reference rewrite of some text, so every guarantee of
/// the rewrite holds of the final page.
pub fn finalize_page(
    html: String,
    should_minify: bool,
    is_dev: bool,
    convert_images: bool,
    base_url: &str,
) -> (r: String)
    ensures
        (!should_minify && convert_images) ==> r@ == rewrite_spec(
            spec_injected(html@, is_dev),
            base_url@,
        ),
        (!should_minify && !convert_images) ==> r@ == spec_injected(html@, is_dev),
        (should_minify && convert_images) ==> exists|m: Seq<char>|
            r@ == #[trigger] rewrite_spec(m, base_url@),
{
    let processed = process_html(html, should_minify, is_dev);
    if convert_images {
        let r = rewrite_to_webp(processed.as_str(), base_url);
        proof {
            assert(r@ == rewrite_spec(processed@, base_url@));
        }
        r
    } else {
        processed
    }
}

/// Which template a tag page uses: the tag-specific one when the registry
/// holds it, the generic listing template otherwise.
pub fn pick_tag_template(has_tag_template: bool) -> (r: &'static str)
    ensures
        has_tag_template ==> r@ == "tag.html"@,
        !has_tag_template ==> r@ == "index.html"@,
{
    if has_tag_template {
        "tag.html"
    } else {
        "index.html"
    }
}

} // verus!
