//! Taxonomy assembly: grouping content by shared tag.
//!
//! Every tag that any item carries gets a group holding, in list order, the
//! indices of the items carrying it. An item appears in a tag's group exactly
//! when it carries that tag. Consumers must treat the order of the groups
//! themselves as incidental.

use vstd::prelude::*;
use crate::models::Post;

verus! {

/// One tag and the indices, into the sorted content list, of the items that
/// carry it.
pub struct TagGroup {
    pub tag: String,
    pub items: Vec<usize>,
}

/// Some group for tag `t` lists item `i`.
pub open spec fn taxonomy_has(groups: Seq<TagGroup>, t: Seq<char>, i: int) -> bool {
    exists|g: int, j: int|
        0 <= g < groups.len() && 0 <= j < groups[g].items@.len() && groups[g].tag@ == t
            && #[trigger] groups[g].items@[j] == i
}

/// Every listed index is a real item carrying the group's tag.
pub open spec fn taxonomy_sound(groups: Seq<TagGroup>, posts: Seq<Post>) -> bool {
    forall|g: int, j: int|
        0 <= g < groups.len() && 0 <= j < groups[g].items@.len() ==> {
            let i = #[trigger] groups[g].items@[j];
            0 <= i < posts.len() && posts[i as int]@.tags.contains(groups[g].tag@)
        }
}

/// No two groups share a tag.
pub open spec fn taxonomy_tags_unique(groups: Seq<TagGroup>) -> bool {
    forall|a: int, b: int|
        0 <= a < b < groups.len() ==> (#[trigger] groups[a].tag)@ != (#[trigger] groups[b].tag)@
}

/// Within each group the item indices come in list order.
pub open spec fn taxonomy_ordered(groups: Seq<TagGroup>) -> bool {
    forall|g: int, j1: int, j2: int|
        0 <= g < groups.len() && 0 <= j1 < j2 < groups[g].items@.len()
            ==> #[trigger] groups[g].items@[j1] <= #[trigger] groups[g].items@[j2]
}

/// Finds the group already holding `tag`, if any.
fn find_group(groups: &Vec<TagGroup>, tag: &String) -> (r: Option<usize>)
    ensures
        match r {
            Some(g) => g < groups@.len() && groups@[g as int].tag@ == tag@,
            None => forall|g: int| 0 <= g < groups@.len() ==> (#[trigger] groups@[g].tag)@ != tag@,
        },
{
    let mut g: usize = 0;
    while g < groups.len()
        invariant
            g <= groups@.len(),
            forall|h: int| 0 <= h < g ==> (#[trigger] groups@[h].tag)@ != tag@,
        decreases groups@.len() - g,
    {
        if groups[g].tag == *tag {
            return Some(g);
        }
        g = g + 1;
    }
    None
}

/// Groups content by tag: item `i` stands in tag `t`'s group exactly when it
/// carries `t`; each tag has one group; within a group the items keep list
/// order.
pub fn build_taxonomies(posts: &Vec<Post>) -> (groups: Vec<TagGroup>)
    ensures
        taxonomy_sound(groups@, posts@),
        taxonomy_tags_unique(groups@),
        taxonomy_ordered(groups@),
        forall|i: int, t: Seq<char>|
            0 <= i < posts@.len() && #[trigger] posts@[i]@.tags.contains(t) ==> taxonomy_has(
                groups@,
                t,
                i,
            ),
{
    let mut groups: Vec<TagGroup> = Vec::new();
    let mut i: usize = 0;
    while i < posts.len()
        invariant
            i <= posts@.len(),
            taxonomy_sound(groups@, posts@),
            taxonomy_tags_unique(groups@),
            taxonomy_ordered(groups@),
            forall|g: int, j: int|
                0 <= g < groups@.len() && 0 <= j < groups@[g].items@.len()
                    ==> #[trigger] groups@[g].items@[j] < i,
            forall|i2: int, t: Seq<char>|
                0 <= i2 < i && #[trigger] posts@[i2]@.tags.contains(t) ==> taxonomy_has(
                    groups@,
                    t,
                    i2,
                ),
        decreases posts@.len() - i,
    {
        let tag_count = posts[i].tags.len();
        let mut ti: usize = 0;
        while ti < tag_count
            invariant
                i < posts@.len(),
                ti <= tag_count,
                tag_count == posts@[i as int]@.tags.len(),
                taxonomy_sound(groups@, posts@),
                taxonomy_tags_unique(groups@),
                taxonomy_ordered(groups@),
                forall|g: int, j: int|
                    0 <= g < groups@.len() && 0 <= j < groups@[g].items@.len()
                        ==> #[trigger] groups@[g].items@[j] <= i,
                forall|i2: int, t: Seq<char>|
                    0 <= i2 < i && #[trigger] posts@[i2]@.tags.contains(t) ==> taxonomy_has(
                        groups@,
                        t,
                        i2,
                    ),
                forall|t2: int|
                    0 <= t2 < ti ==> taxonomy_has(
                        groups@,
                        #[trigger] posts@[i as int]@.tags[t2],
                        i as int,
                    ),
        decreases tag_count - ti,
        {
            let ghost groups0 = groups@;
            let tag = &posts[i].tags[ti];
            proof {
                assert(posts@[i as int]@.tags[ti as int] == tag@);
            }
            match find_group(&groups, tag) {
                Some(g) => {
                    let mut grp = groups.remove(g);
                    let ghost items0 = grp.items@;
                    grp.items.push(i);
                    groups.insert(g, grp);
                    proof {
                        assert(groups@.len() == groups0.len());
                        assert(forall|h: int|
                            0 <= h < groups@.len() && h != g ==> groups@[h] == groups0[h]);
                        assert(groups@[g as int].tag@ == tag@);
                        assert(groups@[g as int].items@ == items0.push(i as usize));
                        assert forall|i2: int, t: Seq<char>|
                            0 <= i2 < i && #[trigger] posts@[i2]@.tags.contains(t) implies
                            taxonomy_has(groups@, t, i2) by {
                            let (g0, j0): (int, int) = choose|g0: int, j0: int|
                                0 <= g0 < groups0.len() && 0 <= j0 < groups0[g0].items@.len()
                                    && groups0[g0].tag@ == t && #[trigger] groups0[g0].items@[j0]
                                    == i2;
                            assert(groups@[g0].items@[j0] == i2);
                        }
                        assert forall|t2: int| 0 <= t2 < ti + 1 implies taxonomy_has(
                            groups@,
                            #[trigger] posts@[i as int]@.tags[t2],
                            i as int,
                        ) by {
                            if t2 < ti {
                                let t = posts@[i as int]@.tags[t2];
                                let (g0, j0): (int, int) = choose|g0: int, j0: int|
                                    0 <= g0 < groups0.len() && 0 <= j0 < groups0[g0].items@.len()
                                        && groups0[g0].tag@ == t && #[trigger] groups0[
                                        g0].items@[j0] == i as int;
                                assert(groups@[g0].items@[j0] == i as int);
                            } else {
                                assert(groups@[g as int].items@[items0.len() as int] == i as int);
                            }
                        }
                        assert(posts@[i as int]@.tags.contains(tag@));
                    }
                },
                None => {
                    let mut items: Vec<usize> = Vec::new();
                    items.push(i);
                    groups.push(TagGroup { tag: tag.clone(), items });
                    proof {
                        assert(groups@.len() == groups0.len() + 1);
                        assert(forall|h: int| 0 <= h < groups0.len() ==> groups@[h] == groups0[h]);
                        assert(groups@[groups0.len() as int].tag@ == tag@);
                        assert(groups@[groups0.len() as int].items@.len() == 1);
                        assert(groups@[groups0.len() as int].items@[0] == i as usize);
                        assert forall|i2: int, t: Seq<char>|
                            0 <= i2 < i && #[trigger] posts@[i2]@.tags.contains(t) implies
                            taxonomy_has(groups@, t, i2) by {
                            let (g0, j0): (int, int) = choose|g0: int, j0: int|
                                0 <= g0 < groups0.len() && 0 <= j0 < groups0[g0].items@.len()
                                    && groups0[g0].tag@ == t && #[trigger] groups0[g0].items@[j0]
                                    == i2;
                            assert(groups@[g0].items@[j0] == i2);
                        }
                        assert forall|t2: int| 0 <= t2 < ti + 1 implies taxonomy_has(
                            groups@,
                            #[trigger] posts@[i as int]@.tags[t2],
                            i as int,
                        ) by {
                            if t2 < ti {
                                let t = posts@[i as int]@.tags[t2];
                                let (g0, j0): (int, int) = choose|g0: int, j0: int|
                                    0 <= g0 < groups0.len() && 0 <= j0 < groups0[g0].items@.len()
                                        && groups0[g0].tag@ == t && #[trigger] groups0[
                                        g0].items@[j0] == i as int;
                                assert(groups@[g0].items@[j0] == i as int);
                            } else {
                                assert(groups@[groups0.len() as int].items@[0] == i as int);
                            }
                        }
                        assert(posts@[i as int]@.tags.contains(tag@));
                    }
                },
            }
            ti = ti + 1;
        }
        i = i + 1;
    }
    groups
}

} // verus!
