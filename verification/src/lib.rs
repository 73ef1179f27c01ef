//! Build engine for a static-site generator.
//!
//! The library turns a tree of markdown content, templates and stylesheet
//! sources into a deployable website. Every decision the engine makes —
//! staleness tracking, theme-layered path resolution, taxonomy and pagination
//! assembly, asset URL rewriting, debounced rebuild coalescing — is stated in
//! contracts and verified. Filesystem and network work is left to the
//! surrounding binary, which hands the engine plain values and carries its
//! decisions out.
//!
//! The engine's parts: content ingestion and front matter ([`parser`]),
//! collection and ordering ([`plan`]), staleness tracking ([`stale`]),
//! taxonomy assembly ([`taxonomy`]), pagination ([`paginate`]), theme-layered
//! path resolution and output layout ([`paths`]), the reference rewrite for
//! optimized images ([`rewrite`]), page finishing ([`render`]),
//! stylesheet-stage decisions ([`stylesheet`]), the feed ([`rss`]), the
//! search index ([`search`]), the tag resolver ([`template`]), the
//! watch–rebuild coordinator's decision core ([`watch`]), scaffolding
//! ([`scaffold`]), and the configuration ([`config`]).

pub mod config;
pub mod models;
pub mod paginate;
pub mod parser;
pub mod paths;
pub mod plan;
pub mod render;
pub mod rewrite;
pub mod rss;
pub mod scaffold;
pub mod search;
pub mod stale;
pub mod stylesheet;
pub mod taxonomy;
pub mod template;
pub mod text;
pub mod watch;
