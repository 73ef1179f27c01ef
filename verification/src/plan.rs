//! Content collection: ingesting sources and ordering the list.
//!
//! Collection parses every markdown source into a content item, then sorts
//! the list by date, newest first — the order every downstream consumer
//! (taxonomy subsets, pagination chunks) preserves. Staleness selection then
//! marks, against the build stamp, exactly the items whose output must be
//! written.

use vstd::prelude::*;
use vstd::multiset::Multiset;
use crate::models::Post;
use crate::parser::{parse_frontmatter, spec_parse_frontmatter};
use crate::stale::{is_stale, spec_is_stale};
use crate::text::{chars_of, lemma_lex_irrefl, lemma_lex_trans, lex_lt, lex_lt_chars};

verus! {

/// One markdown source as the filesystem hands it in: file stem, raw text,
/// modification time in seconds since the epoch.
pub struct PostSource {
    pub slug: String,
    pub raw: String,
    pub mtime: u64,
}

/// Parses every source into a content item, in order.
pub fn ingest_posts(sources: &Vec<PostSource>) -> (posts: Vec<Post>)
    ensures
        posts@.len() == sources@.len(),
        forall|i: int|
            0 <= i < sources@.len() ==> #[trigger] posts@[i]@ == spec_parse_frontmatter(
                sources@[i].raw@,
                sources@[i].slug@,
                sources@[i].mtime,
            ),
{
    let mut posts: Vec<Post> = Vec::new();
    let mut i: usize = 0;
    while i < sources.len()
        invariant
            i <= sources@.len(),
            posts@.len() == i,
            forall|j: int|
                0 <= j < i ==> #[trigger] posts@[j]@ == spec_parse_frontmatter(
                    sources@[j].raw@,
                    sources@[j].slug@,
                    sources@[j].mtime,
                ),
        decreases sources@.len() - i,
    {
        let src = &sources[i];
        let p = parse_frontmatter(src.raw.as_str(), src.slug.as_str(), src.mtime);
        posts.push(p);
        i = i + 1;
    }
    posts
}

/// The list is ordered by date, newest first: no later item has a strictly
/// newer date than an earlier one.
pub open spec fn sorted_by_date_desc(posts: Seq<Post>) -> bool {
    forall|i: int, j: int|
        0 <= i < j < posts.len() ==> !lex_lt(
            (#[trigger] posts[i])@.date,
            (#[trigger] posts[j])@.date,
        )
}

/// Sorts the content list by date, newest first. The result holds exactly
/// the given items.
pub fn sort_posts(posts: Vec<Post>) -> (sorted: Vec<Post>)
    ensures
        sorted@.to_multiset() == posts@.to_multiset(),
        sorted@.len() == posts@.len(),
        sorted_by_date_desc(sorted@),
{
    broadcast use vstd::seq_lib::group_to_multiset_ensures;

    let mut rest = posts;
    let mut out: Vec<Post> = Vec::new();
    proof {
        assert(out@.to_multiset() =~= Multiset::<Post>::empty());
        assert(rest@.to_multiset().add(out@.to_multiset()) =~= posts@.to_multiset());
    }
    while rest.len() > 0
        invariant
            rest@.to_multiset().add(out@.to_multiset()) == posts@.to_multiset(),
            rest@.len() + out@.len() == posts@.len(),
            sorted_by_date_desc(out@),
        decreases rest@.len(),
    {
        let ghost rest0 = rest@;
        let x = match rest.pop() {
            Some(x) => x,
            None => {
                proof {
                    assert(false);
                }
                unreached()
            },
        };
        proof {
            assert(rest0 =~= rest@.push(x));
            vstd::seq_lib::to_multiset_build::<Post>(rest@, x);
            assert(rest0.to_multiset() == rest@.to_multiset().insert(x));
        }
        let xdate = chars_of(x.date.as_str());
        let mut pos: usize = 0;
        while pos < out.len() && !lex_lt_chars(&chars_of(out[pos].date.as_str()), &xdate)
            invariant
                pos <= out@.len(),
                xdate@ == x@.date,
                forall|h: int| 0 <= h < pos ==> !lex_lt((#[trigger] out@[h])@.date, x@.date),
            decreases out@.len() - pos,
        {
            pos = pos + 1;
        }
        let ghost out0 = out@;
        proof {
            if pos < out@.len() {
                assert(lex_lt(out@[pos as int]@.date, x@.date));
            }
        }
        out.insert(pos, x);
        proof {
            broadcast use vstd::seq_lib::to_multiset_insert;

            assert(out@.to_multiset() =~= out0.to_multiset().insert(x));
            assert(rest@.to_multiset().add(out@.to_multiset()) =~= posts@.to_multiset());
            assert forall|i: int, j: int| 0 <= i < j < out@.len() implies !lex_lt(
                (#[trigger] out@[i])@.date,
                (#[trigger] out@[j])@.date,
            ) by {
                if i < pos && j == pos {
                } else if i == pos && j > pos {
                    if lex_lt(x@.date, out0[j - 1]@.date) {
                        if pos < out0.len() {
                            assert(lex_lt(out0[pos as int]@.date, x@.date));
                            lemma_lex_trans(out0[pos as int]@.date, x@.date, out0[j - 1]@.date);
                            assert(lex_lt(out0[pos as int]@.date, out0[j - 1]@.date));
                            if pos == j - 1 {
                                lemma_lex_irrefl(out0[pos as int]@.date);
                            }
                            assert(false);
                        }
                    }
                } else if i < pos && j > pos {
                    assert(out@[i] == out0[i] && out@[j] == out0[j - 1]);
                } else if i > pos && j > pos {
                    assert(out@[i] == out0[i - 1] && out@[j] == out0[j - 1]);
                } else {
                    assert(out@[i] == out0[i] && out@[j] == out0[j]);
                }
            }
        }
    }
    proof {
        assert(rest@.to_multiset() =~= Multiset::<Post>::empty());
        assert(rest@.to_multiset().add(out@.to_multiset()) =~= out@.to_multiset());
    }
    out
}

/// The item is the parse of one of the sources.
pub open spec fn from_some_source(p: Post, sources: Seq<PostSource>) -> bool {
    exists|j: int|
        #![trigger sources[j]]
        0 <= j < sources.len() && p@ == spec_parse_frontmatter(
            sources[j].raw@,
            sources[j].slug@,
            sources[j].mtime,
        )
}

/// Every item in the list is the parse of one of the sources.
pub open spec fn all_from_sources(posts: Seq<Post>, sources: Seq<PostSource>) -> bool {
    forall|i: int| 0 <= i < posts.len() ==> from_some_source(#[trigger] posts[i], sources)
}

/// Collects the content list: every source parsed, then ordered by date,
/// newest first.
pub fn collect_content(sources: &Vec<PostSource>) -> (posts: Vec<Post>)
    ensures
        posts@.len() == sources@.len(),
        sorted_by_date_desc(posts@),
        all_from_sources(posts@, sources@),
{
    broadcast use vstd::seq_lib::group_to_multiset_ensures;

    let parsed = ingest_posts(sources);
    let ghost parsed0 = parsed@;
    let sorted = sort_posts(parsed);
    proof {
        assert forall|i: int| 0 <= i < sorted@.len() implies from_some_source(
            #[trigger] sorted@[i],
            sources@,
        ) by {
            assert(sorted@.contains(sorted@[i]));
            assert(sorted@.to_multiset().count(sorted@[i]) > 0);
            assert(parsed0.to_multiset().count(sorted@[i]) > 0);
            assert(parsed0.contains(sorted@[i]));
            let j = choose|j: int| 0 <= j < parsed0.len() && parsed0[j] == sorted@[i];
            assert(parsed0[j]@ == spec_parse_frontmatter(
                sources@[j].raw@,
                sources@[j].slug@,
                sources@[j].mtime,
            ));
            assert(0 <= j < sources@.len() && sorted@[i]@ == spec_parse_frontmatter(
                sources@[j].raw@,
                sources@[j].slug@,
                sources@[j].mtime,
            ));
            assert(from_some_source(sorted@[i], sources@));
        }
        assert(all_from_sources(sorted@, sources@));
    }
    sorted
}

/// Marks the items whose output must be written: exactly those whose source
/// is newer than the last build or whose destination is absent.
pub fn select_stale(posts: &Vec<Post>, dest_exists: &Vec<bool>, last_run: u64) -> (stale: Vec<
    bool,
>)
    requires
        dest_exists@.len() == posts@.len(),
    ensures
        stale@.len() == posts@.len(),
        forall|i: int|
            0 <= i < posts@.len() ==> #[trigger] stale@[i] == spec_is_stale(
                posts@[i]@.mtime,
                last_run,
                dest_exists@[i],
            ),
{
    let mut stale: Vec<bool> = Vec::new();
    let mut i: usize = 0;
    while i < posts.len()
        invariant
            i <= posts@.len(),
            dest_exists@.len() == posts@.len(),
            stale@.len() == i,
            forall|j: int|
                0 <= j < i ==> #[trigger] stale@[j] == spec_is_stale(
                    posts@[j]@.mtime,
                    last_run,
                    dest_exists@[j],
                ),
        decreases posts@.len() - i,
    {
        stale.push(is_stale(posts[i].mtime, last_run, dest_exists[i]));
        i = i + 1;
    }
    stale
}

/// Some item is marked stale.
pub open spec fn spec_any_stale(stale: Seq<bool>) -> bool {
    exists|i: int| 0 <= i < stale.len() && #[trigger] stale[i]
}

/// Whether the collection-derived outputs — the listing pages, the per-tag
/// pages, the feed and the search index — are due: exactly when some item is
/// stale, or one of them is absent. They are assembled from the whole
/// collection, so any stale item makes all of them due; a rebuild where
/// nothing is stale and all of them are present re-emits none of them.
pub fn aggregates_due(stale: &Vec<bool>, all_aggregate_outputs_exist: bool) -> (r: bool)
    ensures
        r == (spec_any_stale(stale@) || !all_aggregate_outputs_exist),
{
    if !all_aggregate_outputs_exist {
        return true;
    }
    let mut i: usize = 0;
    while i < stale.len()
        invariant
            i <= stale@.len(),
            forall|j: int| 0 <= j < i ==> !(#[trigger] stale@[j]),
        decreases stale@.len() - i,
    {
        if stale[i] {
            return true;
        }
        i = i + 1;
    }
    false
}

/// A rebuild over unchanged sources schedules no writes at all: when no
/// source is newer than the last build and every destination is present, no
/// item is marked stale — so every existing item output is left untouched —
/// and with the collection-derived outputs also present, none of the listing
/// pages, per-tag pages, feed or search index is due either.
pub proof fn lemma_unchanged_rebuild_writes_nothing(
    posts: Seq<Post>,
    dest_exists: Seq<bool>,
    stale: Seq<bool>,
    last_run: u64,
)
    requires
        dest_exists.len() == posts.len(),
        stale.len() == posts.len(),
        forall|i: int|
            0 <= i < posts.len() ==> #[trigger] stale[i] == spec_is_stale(
                posts[i]@.mtime,
                last_run,
                dest_exists[i],
            ),
        forall|i: int| 0 <= i < posts.len() ==> (#[trigger] posts[i])@.mtime <= last_run,
        forall|i: int| 0 <= i < dest_exists.len() ==> #[trigger] dest_exists[i],
    ensures
        forall|i: int| 0 <= i < stale.len() ==> !(#[trigger] stale[i]),
        !spec_any_stale(stale),
{
}

} // verus!

