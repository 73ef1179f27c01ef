//! The engine's persisted configuration.
//!
//! The configuration combines directory paths, site-wide metadata, and the
//! switches that tune a build. Every field a project file leaves out falls
//! back to the default its provider states.

use vstd::prelude::*;

verus! {

/// Metadata describing the site for page titles, the feed and the search
/// index.
pub struct SiteMetadata {
    /// The site's name.
    pub title: String,
    /// A short description for meta tags and the feed.
    pub description: String,
    /// The default author name.
    pub author: String,
    /// Whether the feed document is generated.
    pub generate_rss: bool,
    /// Whether the search index is generated.
    pub generate_search: bool,
    /// Whether the main list is paginated.
    pub paginate: bool,
    /// Items per page when pagination is on.
    pub posts_per_page: usize,
}

/// The switches that tune the build engine.
pub struct BuildSettings {
    /// Wipe the output tree before every build.
    pub clean_output: bool,
    /// The stylesheet compiler's output style word.
    pub sass_style: String,
    /// Minify the final page text.
    pub minify_html: bool,
    /// Highlight fenced code blocks.
    pub use_syntect: bool,
    /// The highlighting colour theme's name.
    pub syntax_theme: String,
    /// A custom colour-theme file, when one is used.
    pub syntax_theme_path: Option<String>,
    /// Transcode raster images and rewrite references to them.
    pub convert_to_webp: bool,
    /// A directory of extra syntax definitions, when one is used.
    pub custom_syntax_dir: Option<String>,
}

/// The root configuration of a project.
pub struct Config {
    /// The active theme's name, if the project uses one.
    pub theme: Option<String>,
    /// Directory of post sources.
    pub posts_dir: String,
    /// Sub-directory of the output tree where items are rendered; empty
    /// renders them at the output root.
    pub posts_outdir: String,
    /// Directory of page sources.
    pub pages_dir: String,
    /// The output tree's root.
    pub output_dir: String,
    /// The primary template file.
    pub template_path: String,
    /// Directory of reusable fragments.
    pub includes_dir: String,
    /// Directory of raw assets copied to the output.
    pub static_dir: String,
    /// The template for individual item views.
    pub view_template_path: String,
    /// The base domain for absolute links.
    pub base_url: String,
    /// The base sub-path when the site is not hosted at the root.
    pub base: String,
    /// Site identity.
    pub site: SiteMetadata,
    /// Engine switches.
    pub build: BuildSettings,
}

/// Default directory of post sources.
pub fn default_posts() -> (r: String)
    ensures
        r@ == "./posts"@,
{
    "./posts".to_owned()
}

/// Default sub-directory for rendered items: the output root itself.
pub fn default_posts_outdir() -> (r: String)
    ensures
        r@ == ""@,
{
    "".to_owned()
}

/// Default directory of page sources.
pub fn default_pages() -> (r: String)
    ensures
        r@ == "./pages"@,
{
    "./pages".to_owned()
}

/// Default output tree.
pub fn default_output() -> (r: String)
    ensures
        r@ == "./.build"@,
{
    "./.build".to_owned()
}

/// Default primary template file.
pub fn default_template() -> (r: String)
    ensures
        r@ == "./index.html"@,
{
    "./index.html".to_owned()
}

/// Default fragments directory.
pub fn default_includes() -> (r: String)
    ensures
        r@ == "./includes"@,
{
    "./includes".to_owned()
}

/// Default raw-assets directory.
pub fn default_static() -> (r: String)
    ensures
        r@ == "./static"@,
{
    "./static".to_owned()
}

/// Default item-view template.
pub fn default_view() -> (r: String)
    ensures
        r@ == "./includes/view_template.html"@,
{
    "./includes/view_template.html".to_owned()
}

/// Default base domain.
pub fn default_url() -> (r: String)
    ensures
        r@ == "https://example.com"@,
{
    "https://example.com".to_owned()
}

/// Default base sub-path: the root.
pub fn default_base() -> (r: String)
    ensures
        r@ == ""@,
{
    "".to_owned()
}

/// Default site name.
pub fn default_title() -> (r: String)
    ensures
        r@ == "a novos site"@,
{
    "a novos site".to_owned()
}

/// Default stylesheet output style.
pub fn default_sass_style() -> (r: String)
    ensures
        r@ == "expanded"@,
{
    "expanded".to_owned()
}

/// Default highlighting colour theme.
pub fn default_theme() -> (r: String)
    ensures
        r@ == "base16-ocean.dark"@,
{
    "base16-ocean.dark".to_owned()
}

/// The default for switches that are on unless the project turns them off.
pub fn default_bool_true() -> (r: bool)
    ensures
        r == true,
{
    true
}

/// The default for switches that are off unless the project turns them on.
pub fn default_bool_false() -> (r: bool)
    ensures
        r == false,
{
    false
}

/// Default page size for pagination.
pub fn default_posts_per_page() -> (r: usize)
    ensures
        r == 10,
{
    10
}

} // verus!
