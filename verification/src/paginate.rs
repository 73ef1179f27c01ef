//! Pagination of the sorted content list.
//!
//! With page size `P > 0`, the list of `N` items is chunked into
//! `ceil(N / P)` consecutive, order-preserving, non-overlapping slices. Every
//! page but the last holds exactly `P` items; the last holds the remainder,
//! never empty. Page one writes to the root index, page `k > 1` to a
//! numbered sub-path.

use vstd::prelude::*;

verus! {

/// One pagination page: its number, the page count, the slice of the sorted
/// list it shows, and whether neighbours exist.
pub struct PageSlice {
    /// One-based page number.
    pub number: usize,
    /// How many pages there are in all.
    pub total: usize,
    /// First item index of the slice.
    pub start: usize,
    /// One past the last item index of the slice.
    pub end: usize,
    /// Whether a previous page exists.
    pub has_prev: bool,
    /// Whether a next page exists.
    pub has_next: bool,
}

/// How many pages `n` items make at `per_page` items each: the count of
/// whole pages plus one for a remainder — the ceiling of `n / per_page`.
pub open spec fn spec_page_count(n: int, per_page: int) -> int
    decreases n,
{
    if per_page <= 0 || n <= 0 {
        0
    } else if n <= per_page {
        1
    } else {
        1 + spec_page_count(n - per_page, per_page)
    }
}

/// The page count is zero exactly on an empty list, and never negative.
pub proof fn lemma_page_count_pos(n: int, per_page: int)
    requires
        per_page > 0,
    ensures
        spec_page_count(n, per_page) >= 0,
        n > 0 ==> spec_page_count(n, per_page) >= 1,
        n <= 0 ==> spec_page_count(n, per_page) == 0,
    decreases n,
{
    if n > per_page {
        lemma_page_count_pos(n - per_page, per_page);
    }
}

/// The recursive page count is the ceiling of the division.
pub proof fn lemma_page_count_is_ceil(n: int, per_page: int)
    requires
        per_page > 0,
        n >= 0,
    ensures
        spec_page_count(n, per_page) == (n + per_page - 1) / per_page,
    decreases n,
{
    if n == 0 {
        assert((per_page - 1) / per_page == 0) by (nonlinear_arith)
            requires
                per_page > 0,
        ;
    } else if n <= per_page {
        assert((n + per_page - 1) / per_page == 1) by (nonlinear_arith)
            requires
                per_page > 0 && 0 < n <= per_page,
        ;
    } else {
        lemma_page_count_is_ceil(n - per_page, per_page);
        assert((n + per_page - 1) / per_page == (n - per_page + per_page - 1) / per_page + 1)
            by (nonlinear_arith)
            requires
                per_page > 0 && n > per_page,
        ;
    }
}

/// Well-formedness of the page numbered `k + 1` in a pagination of `n` items
/// at `per_page` each, with `total` pages in all.
pub open spec fn page_wf(pg: PageSlice, k: int, total: int, per_page: int, n: int) -> bool {
    &&& pg.number == k + 1
    &&& pg.total == total
    &&& pg.start < pg.end <= n
    &&& pg.end - pg.start <= per_page
    &&& (k < total - 1 ==> pg.end - pg.start == per_page)
    &&& (k == total - 1 ==> pg.end == n)
    &&& pg.has_prev == (k > 0)
    &&& pg.has_next == (k + 1 < total)
}

/// Chunks `n` items into pages of `per_page`. The pages partition
/// `0 .. n` in order: page one starts at the first item, each page starts
/// where the previous one ended, and the last page ends at the final item —
/// so concatenating the slices in page order reproduces the whole list, with
/// no gaps and no duplicates.
pub fn paginate(n: usize, per_page: usize) -> (pages: Vec<PageSlice>)
    requires
        per_page > 0,
    ensures
        pages@.len() == spec_page_count(n as int, per_page as int),
        forall|k: int|
            0 <= k < pages@.len() ==> page_wf(
                #[trigger] pages@[k],
                k,
                pages@.len() as int,
                per_page as int,
                n as int,
            ),
        pages@.len() > 0 ==> pages@[0].start == 0,
        forall|k: int| 0 < k < pages@.len() ==> #[trigger] pages@[k].start == pages@[k - 1].end,
{
    let mut total: usize = 0;
    let mut pos: usize = 0;
    while pos < n
        invariant
            pos <= n,
            total <= pos,
            total + spec_page_count(n - pos, per_page as int) == spec_page_count(
                n as int,
                per_page as int,
            ),
            per_page > 0,
        decreases n - pos,
    {
        if n - pos <= per_page {
            pos = n;
        } else {
            pos = pos + per_page;
        }
        total = total + 1;
    }
    let mut pages: Vec<PageSlice> = Vec::new();
    let mut start: usize = 0;
    let mut k: usize = 0;
    while k < total
        invariant
            per_page > 0,
            pages@.len() == k <= total,
            total == spec_page_count(n as int, per_page as int),
            start <= n,
            spec_page_count(n - start, per_page as int) == total - k,
            k == 0 ==> start == 0,
            k > 0 ==> pages@[k - 1].end == start,
            pages@.len() > 0 ==> pages@[0].start == 0,
            forall|j: int|
                0 <= j < k ==> page_wf(
                    #[trigger] pages@[j],
                    j,
                    total as int,
                    per_page as int,
                    n as int,
                ),
            forall|j: int| 0 < j < k ==> #[trigger] pages@[j].start == pages@[j - 1].end,
        decreases total - k,
    {
        proof {
            lemma_page_count_pos(n - start, per_page as int);
        }
        let end: usize = if n - start <= per_page {
            n
        } else {
            start + per_page
        };
        proof {
            lemma_page_count_pos(n - end, per_page as int);
            if n - start <= per_page {
                assert(spec_page_count(n - start, per_page as int) == 1);
            } else {
                assert(spec_page_count(n - start, per_page as int) == 1 + spec_page_count(
                    n - end,
                    per_page as int,
                ));
            }
        }
        pages.push(
            PageSlice {
                number: k + 1,
                total,
                start,
                end,
                has_prev: k > 0,
                has_next: k + 1 < total,
            },
        );
        start = end;
        k = k + 1;
    }
    proof {
        lemma_page_count_pos(n - start, per_page as int);
    }
    pages
}

/// The items the pages show, concatenated in page order.
pub open spec fn pages_concat<A>(s: Seq<A>, pages: Seq<PageSlice>) -> Seq<A>
    decreases pages.len(),
{
    if pages.len() == 0 {
        Seq::empty()
    } else if 0 <= pages[0].start <= pages[0].end <= s.len() {
        s.subrange(pages[0].start as int, pages[0].end as int) + pages_concat(
            s,
            pages.drop_first(),
        )
    } else {
        Seq::empty()
    }
}

proof fn lemma_pages_concat_chain<A>(s: Seq<A>, pages: Seq<PageSlice>, b: int)
    requires
        pages.len() > 0,
        pages[0].start == b,
        pages[pages.len() - 1].end == s.len(),
        forall|k: int| 0 <= k < pages.len() ==> 0 <= #[trigger] pages[k].start <= pages[k].end <= s.len(),
        forall|k: int| 0 < k < pages.len() ==> #[trigger] pages[k].start == pages[k - 1].end,
    ensures
        pages_concat(s, pages) == s.subrange(b, s.len() as int),
    decreases pages.len(),
{
    if pages.len() == 1 {
        assert(pages_concat(s, pages.drop_first()) =~= Seq::<A>::empty());
        assert(pages_concat(s, pages) =~= s.subrange(b, s.len() as int));
    } else {
        let rest = pages.drop_first();
        assert(forall|k: int|
            0 <= k < rest.len() ==> 0 <= #[trigger] rest[k].start <= rest[k].end <= s.len());
        assert forall|k: int| 0 < k < rest.len() implies #[trigger] rest[k].start == rest[k
            - 1].end by {
            assert(rest[k] == pages[k + 1] && rest[k - 1] == pages[k]);
        }
        assert(rest[0] == pages[1]);
        assert(rest[rest.len() - 1] == pages[pages.len() - 1]);
        lemma_pages_concat_chain(s, rest, pages[0].end as int);
        assert(pages_concat(s, pages) =~= s.subrange(b, pages[0].end as int) + s.subrange(
            pages[0].end as int,
            s.len() as int,
        ));
        assert(s.subrange(b, pages[0].end as int) + s.subrange(
            pages[0].end as int,
            s.len() as int,
        ) =~= s.subrange(b, s.len() as int));
    }
}

/// Concatenating the page slices in page order reproduces the whole list:
/// every item exactly once, no gaps, no duplicates.
pub proof fn lemma_pagination_reproduces_list<A>(s: Seq<A>, pages: Seq<PageSlice>)
    requires
        pages.len() > 0 ==> pages[0].start == 0,
        pages.len() > 0 ==> pages[pages.len() - 1].end == s.len(),
        pages.len() == 0 ==> s.len() == 0,
        forall|k: int| 0 <= k < pages.len() ==> 0 <= #[trigger] pages[k].start <= pages[k].end <= s.len(),
        forall|k: int| 0 < k < pages.len() ==> #[trigger] pages[k].start == pages[k - 1].end,
    ensures
        pages_concat(s, pages) == s,
{
    if pages.len() == 0 {
        assert(pages_concat(s, pages) =~= s);
    } else {
        lemma_pages_concat_chain(s, pages, 0);
        assert(s.subrange(0, s.len() as int) =~= s);
    }
}

} // verus!
