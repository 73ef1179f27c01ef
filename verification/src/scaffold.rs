//! Scaffolding decisions: interpreting prompt answers and generating a new
//! project's configuration file.
//!
//! The prompts themselves are terminal work and stay outside; the library
//! decides what an answer means and what configuration text a new project
//! gets. A new project starts from that configuration and an empty directory
//! skeleton; no starter page or theme files ship with the engine.

use vstd::prelude::*;
use crate::text::{
    chars_of, extract_range, lower_of, lowercase, str_eq_exec, trim_range, trim_spec,
};

verus! {

/// What a free-form answer selects: the trimmed answer, or the default when
/// nothing was typed.
pub fn interpret_input(answer: &str, default: &str) -> (r: String)
    ensures
        trim_spec(answer@).len() == 0 ==> r@ == default@,
        trim_spec(answer@).len() != 0 ==> r@ == trim_spec(answer@),
{
    let v = chars_of(answer);
    let (a, b) = trim_range(&v, 0, v.len());
    proof {
        assert(v@.subrange(0, v@.len() as int) =~= v@);
    }
    if b > a {
        extract_range(&v, a, b)
    } else {
        default.to_owned()
    }
}

/// What a lowered yes-or-no answer means: nothing typed keeps the default,
/// a yes word confirms, a no word declines, anything else keeps the default.
pub open spec fn spec_interpret_confirm(lowered: Seq<char>, default_yes: bool) -> bool {
    if lowered.len() == 0 {
        default_yes
    } else if lowered == "y"@ || lowered == "yes"@ {
        true
    } else if lowered == "n"@ || lowered == "no"@ {
        false
    } else {
        default_yes
    }
}

/// Interprets a yes-or-no answer, trimmed and lower-cased.
pub fn interpret_confirm(answer: &str, default_yes: bool) -> (r: bool)
    ensures
        r == spec_interpret_confirm(lower_of(trim_spec(answer@)), default_yes),
{
    let v = chars_of(answer);
    let (a, b) = trim_range(&v, 0, v.len());
    proof {
        assert(v@.subrange(0, v@.len() as int) =~= v@);
    }
    let trimmed = extract_range(&v, a, b);
    let lowered = lowercase(trimmed.as_str());
    if lowered.as_str().is_empty() {
        return default_yes;
    }
    if str_eq_exec(lowered.as_str(), "y") || str_eq_exec(lowered.as_str(), "yes") {
        return true;
    }
    if str_eq_exec(lowered.as_str(), "n") || str_eq_exec(lowered.as_str(), "no") {
        return false;
    }
    default_yes
}

/// A switch as configuration text.
pub open spec fn bool_chars(b: bool) -> Seq<char> {
    if b {
        "true"@
    } else {
        "false"@
    }
}

/// Renders a switch for the configuration file.
fn bool_text(b: bool) -> (r: &'static str)
    ensures
        r@ == bool_chars(b),
{
    if b {
        "true"
    } else {
        "false"
    }
}

/// The configuration text a scaffolded project starts from.
pub open spec fn spec_init_config(
    url: Seq<char>,
    title: Seq<char>,
    author: Seq<char>,
    gen_rss: bool,
    gen_search: bool,
    clean_out: bool,
    minify: bool,
    convert_to_webp: bool,
    use_syntect: bool,
    sass_style: Seq<char>,
) -> Seq<char> {
    "base_url = \""@ + url + "\"\nbase = \"\"\n\nposts_dir    = \"./posts\"\npages_dir    = \"./pages\"\nstatic_dir   = \"./static\"\noutput_dir   = \"./.build\"\nposts_outdir = \"posts/\"\n\ntemplate_path      = \"./index.html\"\nincludes_dir       = \"./includes\"\nview_template_path = \"./includes/view_template.html\"\n\n[site]\ntitle = \""@
        + title + "\"\ndescription = \"A fast, minimal static site generated with Rust.\"\nauthor = \""@
        + author + "\"\ngenerate_rss = "@ + bool_chars(gen_rss) + "\ngenerate_search = "@
        + bool_chars(gen_search) + "\n\n[build]\nclean_output = "@ + bool_chars(clean_out)
        + "\nminify_html = "@ + bool_chars(minify) + "\nconvert_to_webp = "@ + bool_chars(
        convert_to_webp,
    ) + "\nsyntax_theme = \"base16-ocean.dark\"\nuse_syntect = "@ + bool_chars(use_syntect)
        + "\nsass_style = \""@ + sass_style + "\"\n"@
}

/// Generates the configuration text for a new project from the gathered
/// answers.
pub fn init_config_text(
    url: &str,
    title: &str,
    author: &str,
    gen_rss: bool,
    gen_search: bool,
    clean_out: bool,
    minify: bool,
    convert_to_webp: bool,
    use_syntect: bool,
    sass_style: &str,
) -> (r: String)
    ensures
        r@ == spec_init_config(
            url@,
            title@,
            author@,
            gen_rss,
            gen_search,
            clean_out,
            minify,
            convert_to_webp,
            use_syntect,
            sass_style@,
        ),
{
    let mut s = "base_url = \"".to_owned();
    s.append(url);
    s.append(
        "\"\nbase = \"\"\n\nposts_dir    = \"./posts\"\npages_dir    = \"./pages\"\nstatic_dir   = \"./static\"\noutput_dir   = \"./.build\"\nposts_outdir = \"posts/\"\n\ntemplate_path      = \"./index.html\"\nincludes_dir       = \"./includes\"\nview_template_path = \"./includes/view_template.html\"\n\n[site]\ntitle = \"",
    );
    s.append(title);
    s.append("\"\ndescription = \"A fast, minimal static site generated with Rust.\"\nauthor = \"");
    s.append(author);
    s.append("\"\ngenerate_rss = ");
    s.append(bool_text(gen_rss));
    s.append("\ngenerate_search = ");
    s.append(bool_text(gen_search));
    s.append("\n\n[build]\nclean_output = ");
    s.append(bool_text(clean_out));
    s.append("\nminify_html = ");
    s.append(bool_text(minify));
    s.append("\nconvert_to_webp = ");
    s.append(bool_text(convert_to_webp));
    s.append("\nsyntax_theme = \"base16-ocean.dark\"\nuse_syntect = ");
    s.append(bool_text(use_syntect));
    s.append("\nsass_style = \"");
    s.append(sass_style);
    s.append("\"\n");
    s
}

} // verus!
