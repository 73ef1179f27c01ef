//! The engine's content data model.
//!
//! A content item is created by ingestion at build start, is immutable within
//! a build, and is not persisted across builds. It is unique per slug within
//! its collection.

use vstd::prelude::*;

verus! {

/// One content item: a markdown source with its extracted front matter.
pub struct Post {
    /// The item's identifier, from the source file's stem.
    pub slug: String,
    /// Display title; defaults to the slug when the front matter has none.
    pub title: String,
    /// Sortable date string; empty when the front matter has none.
    pub date: String,
    /// The tags the item carries.
    pub tags: Vec<String>,
    /// The markdown body, front matter removed.
    pub raw_content: String,
    /// Source modification time, in seconds since the epoch.
    pub mtime: u64,
}

/// The mathematical model of a [`Post`]: every text field as a character
/// sequence.
pub struct PostView {
    pub slug: Seq<char>,
    pub title: Seq<char>,
    pub date: Seq<char>,
    pub tags: Seq<Seq<char>>,
    pub raw_content: Seq<char>,
    pub mtime: u64,
}

impl View for Post {
    type V = PostView;

    open spec fn view(&self) -> PostView {
        PostView {
            slug: self.slug@,
            title: self.title@,
            date: self.date@,
            tags: self.tags.deep_view(),
            raw_content: self.raw_content@,
            mtime: self.mtime,
        }
    }
}

/// The views of a list of items.
pub open spec fn views_of(posts: Seq<Post>) -> Seq<PostView> {
    posts.map_values(|p: Post| p@)
}

/// Metadata a theme declares about itself.
pub struct ThemeMetadata {
    /// The theme's name.
    pub name: String,
    /// A syntax-highlighting theme the theme prefers, if any.
    pub syntax_theme: Option<String>,
}

/// The top-level shape of a theme's own configuration file.
pub struct ThemeConfig {
    pub theme: ThemeMetadata,
}

/// A loaded theme: where it lives and what it declares.
pub struct Theme {
    /// The theme's root directory.
    pub root: String,
    pub config: ThemeMetadata,
}

} // verus!
