//! The search index: plain-text snippets of every item.
//!
//! Each item contributes one entry — title, slug, date, tags, and the
//! opening of its body as plain text. The plain text is the markdown's text
//! and inline-code content, in order, one space after each piece, trimmed.
//! The markdown parsing itself is the external parser's work, relied on at
//! its boundary; everything after the parse is verified.

use vstd::prelude::*;
use crate::models::Post;
use crate::rss::{spec_take_chars, take_chars};
use crate::text::{chars_of, extract_range, push_range, trim_range, trim_spec};

verus! {

/// One event of the markdown stream, reduced to what indexing reads: text
/// content, inline-code content, or anything else.
pub enum MdPiece {
    Text(String),
    Code(String),
    Other,
}

/// The mathematical model of one stream event.
pub enum MdPieceView {
    Text(Seq<char>),
    Code(Seq<char>),
    Other,
}

impl DeepView for MdPiece {
    type V = MdPieceView;

    open spec fn deep_view(&self) -> MdPieceView {
        match self {
            MdPiece::Text(t) => MdPieceView::Text(t@),
            MdPiece::Code(t) => MdPieceView::Code(t@),
            MdPiece::Other => MdPieceView::Other,
        }
    }
}

/// What the external markdown parser emits for a text: a function of the
/// text alone.
pub uninterp spec fn md_pieces(md: Seq<char>) -> Seq<MdPieceView>;

/// Relies on pulldown_cmark's `Parser`: the event stream is a function of
/// the markdown text alone; text and inline-code events carry their
/// content, every other event is opaque here.
#[verifier::external_body]
fn markdown_pieces(md: &str) -> (r: Vec<MdPiece>)
    ensures
        r.deep_view() == md_pieces(md@),
{
    pulldown_cmark::Parser::new(md).map(
        |ev| match ev {
            pulldown_cmark::Event::Text(t) => MdPiece::Text(t.to_string()),
            pulldown_cmark::Event::Code(t) => MdPiece::Code(t.to_string()),
            _ => MdPiece::Other,
        },
    ).collect()
}

/// The text the stream's pieces contribute from position `i` on: each text
/// or inline-code piece, one space after each.
pub open spec fn pieces_text(pieces: Seq<MdPieceView>, i: int) -> Seq<char>
    decreases pieces.len() - i,
{
    if i < 0 || i >= pieces.len() {
        Seq::empty()
    } else {
        let head = match pieces[i] {
            MdPieceView::Text(t) => t + seq![' '],
            MdPieceView::Code(t) => t + seq![' '],
            MdPieceView::Other => Seq::<char>::empty(),
        };
        head + pieces_text(pieces, i + 1)
    }
}

/// The plain text of a markdown source: its text and inline-code content in
/// order, a space after each piece, surrounding whitespace removed.
pub open spec fn spec_strip_markdown(md: Seq<char>) -> Seq<char> {
    trim_spec(pieces_text(md_pieces(md), 0))
}

/// Strips markdown syntax from a text, yielding the plain text the search
/// index stores.
pub fn strip_markdown(md: &str) -> (r: String)
    ensures
        r@ == spec_strip_markdown(md@),
{
    let pieces = markdown_pieces(md);
    let mut v: Vec<char> = Vec::new();
    let mut i: usize = 0;
    while i < pieces.len()
        invariant
            i <= pieces@.len(),
            pieces.deep_view() == md_pieces(md@),
            pieces.deep_view().len() == pieces@.len(),
            pieces_text(pieces.deep_view(), 0) == v@ + pieces_text(pieces.deep_view(), i as int),
        decreases pieces@.len() - i,
    {
        let ghost v0 = v@;
        match &pieces[i] {
            MdPiece::Text(t) => {
                let tv = chars_of(t.as_str());
                push_range(&mut v, &tv, 0, tv.len());
                v.push(' ');
                proof {
                    assert(tv@.subrange(0, tv@.len() as int) =~= tv@);
                    assert(pieces.deep_view()[i as int] == pieces@[i as int].deep_view());
                    assert(v@ =~= v0 + (t@ + seq![' ']));
                }
            },
            MdPiece::Code(t) => {
                let tv = chars_of(t.as_str());
                push_range(&mut v, &tv, 0, tv.len());
                v.push(' ');
                proof {
                    assert(tv@.subrange(0, tv@.len() as int) =~= tv@);
                    assert(pieces.deep_view()[i as int] == pieces@[i as int].deep_view());
                    assert(v@ =~= v0 + (t@ + seq![' ']));
                }
            },
            MdPiece::Other => {
                proof {
                    assert(pieces.deep_view()[i as int] == pieces@[i as int].deep_view());
                    assert(v@ =~= v0 + Seq::<char>::empty());
                }
            },
        }
        i = i + 1;
    }
    proof {
        assert(pieces_text(pieces.deep_view(), i as int) =~= Seq::<char>::empty());
        assert(v@ =~= pieces_text(pieces.deep_view(), 0));
    }
    let (a, b) = trim_range(&v, 0, v.len());
    proof {
        assert(v@.subrange(0, v@.len() as int) =~= v@);
    }
    extract_range(&v, a, b)
}

/// One search-index entry: the item's identity and the opening of its plain
/// text.
pub struct SearchEntry {
    pub title: String,
    pub slug: String,
    pub date: String,
    pub tags: Vec<String>,
    pub snippet: String,
}

/// Builds the search index: one entry per item, in list order, each snippet
/// the first hundred-and-forty characters of the item's plain text.
pub fn build_search_index(posts: &Vec<Post>) -> (entries: Vec<SearchEntry>)
    ensures
        entries@.len() == posts@.len(),
        forall|i: int|
            0 <= i < posts@.len() ==> {
                &&& (#[trigger] entries@[i]).title@ == posts@[i]@.title
                &&& entries@[i].slug@ == posts@[i]@.slug
                &&& entries@[i].date@ == posts@[i]@.date
                &&& entries@[i].tags.deep_view() == posts@[i]@.tags
                &&& entries@[i].snippet@ == spec_take_chars(
                    spec_strip_markdown(posts@[i]@.raw_content),
                    140,
                )
            },
{
    let mut entries: Vec<SearchEntry> = Vec::new();
    let mut i: usize = 0;
    while i < posts.len()
        invariant
            i <= posts@.len(),
            entries@.len() == i,
            forall|j: int|
                0 <= j < i ==> {
                    &&& (#[trigger] entries@[j]).title@ == posts@[j]@.title
                    &&& entries@[j].slug@ == posts@[j]@.slug
                    &&& entries@[j].date@ == posts@[j]@.date
                    &&& entries@[j].tags.deep_view() == posts@[j]@.tags
                    &&& entries@[j].snippet@ == spec_take_chars(
                        spec_strip_markdown(posts@[j]@.raw_content),
                        140,
                    )
                },
        decreases posts@.len() - i,
    {
        let p = &posts[i];
        let plain = strip_markdown(p.raw_content.as_str());
        let snippet = take_chars(plain.as_str(), 140);
        entries.push(
            SearchEntry {
                title: p.title.clone(),
                slug: p.slug.clone(),
                date: p.date.clone(),
                tags: p.tags.clone(),
                snippet,
            },
        );
        i = i + 1;
    }
    entries
}

} // verus!
