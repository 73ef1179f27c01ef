//! Stylesheet-stage decisions.
//!
//! The stage resolves the stylesheet directory through the theme overlay and
//! hands each source file to the external compiler. A partial — a source
//! whose name opens with an underscore — is importable but never compiled
//! directly. Compiled output keeps the source's name under the fixed output
//! extension. A compile failure aborts the whole build: no partially-styled
//! output is acceptable.

use vstd::prelude::*;
use crate::paths::{ext_start, replace_extension, spec_replace_extension};
use crate::text::{chars_of, str_eq_exec};

verus! {

/// The output style the external compiler is asked for.
pub enum SassStyle {
    /// Readable output.
    Expanded,
    /// Optimized output.
    Compressed,
}

/// Maps the configured style word to the compiler's output style: exactly
/// the word for compressed output selects it, anything else stays readable.
pub fn sass_output_style(word: &str) -> (r: SassStyle)
    ensures
        word@ == "compressed"@ ==> r is Compressed,
        word@ != "compressed"@ ==> r is Expanded,
{
    if str_eq_exec(word, "compressed") {
        SassStyle::Compressed
    } else {
        SassStyle::Expanded
    }
}

/// A partial: a stylesheet source whose name opens with the designated
/// prefix character, importable but excluded from direct compilation.
pub open spec fn spec_is_partial(name: Seq<char>) -> bool {
    name.len() > 0 && name[0] == '_'
}

/// Whether a stylesheet source is a partial.
pub fn is_partial(name: &str) -> (r: bool)
    ensures
        r == spec_is_partial(name@),
{
    let v = chars_of(name);
    v.len() > 0 && v[0] == '_'
}

/// A stylesheet source: a file whose extension names either stylesheet
/// dialect, exactly.
pub open spec fn spec_is_sass_source(name: Seq<char>) -> bool {
    let e = ext_start(name);
    e >= 0 && {
        let ext = name.subrange(e, name.len() as int);
        ext == "scss"@ || ext == "sass"@
    }
}

/// A source file is compiled directly exactly when it is a stylesheet source
/// and not a partial.
pub open spec fn spec_compiles_directly(name: Seq<char>) -> bool {
    spec_is_sass_source(name) && !spec_is_partial(name)
}

/// Decides whether one file in the stylesheet directory is handed to the
/// compiler.
pub fn compiles_directly(name: &str) -> (r: bool)
    ensures
        r == spec_compiles_directly(name@),
{
    let v = chars_of(name);
    let is_part = v.len() > 0 && v[0] == '_';
    if is_part {
        return false;
    }
    let e_opt = find_ext_start(&v);
    match e_opt {
        Some(e) => {
            let ext = crate::text::extract_range(&v, e, v.len());
            let r = str_eq_exec(ext.as_str(), "scss") || str_eq_exec(ext.as_str(), "sass");
            r
        },
        None => false,
    }
}

/// Exec computation of [`ext_start`], as an option.
fn find_ext_start(v: &Vec<char>) -> (r: Option<usize>)
    ensures
        match r {
            Some(e) => e as int == ext_start(v@) && e <= v@.len(),
            None => ext_start(v@) < 0,
        },
{
    proof {
        crate::paths::lemma_last_pos(v@, '.');
        crate::paths::lemma_last_pos(v@, '/');
    }
    let n = v.len();
    let (dot_found, d) = crate::paths::last_pos_exec(v, '.');
    let (slash_found, sl) = crate::paths::last_pos_exec(v, '/');
    let has_ext = dot_found && ((slash_found && d > sl + 1) || (!slash_found && d > 0));
    if has_ext {
        Some(d + 1)
    } else {
        None
    }
}

/// The compiled output's file name: the source's name under the fixed output
/// extension.
pub fn css_output_name(name: &str) -> (r: String)
    ensures
        r@ == spec_replace_extension(name@, "css"@),
{
    replace_extension(name, "css")
}

} // verus!
