//! The watch–rebuild coordinator's decision core.
//!
//! Raw change events are filtered against an ignore set; a surviving event
//! pushes a rebuild token onto a bounded queue that drops tokens silently
//! when full — only the presence of a pending rebuild matters, not the
//! count. A single consumer takes a token, waits out the debounce interval,
//! drains whatever arrived meanwhile, and rebuilds once: a burst of triggers
//! coalesces into exactly one rebuild.

use vstd::prelude::*;
use crate::text::{chars_of, check_match_at, matches_at};

verus! {

/// Whether `sub` occurs anywhere in `s`.
pub open spec fn contains_sub(s: Seq<char>, sub: Seq<char>) -> bool {
    exists|k: int| matches_at(s, k, sub)
}

/// Exec check of [`contains_sub`].
fn contains_sub_exec(hay: &Vec<char>, needle: &Vec<char>) -> (r: bool)
    ensures
        r == contains_sub(hay@, needle@),
{
    if needle.len() == 0 {
        proof {
            assert(hay@.subrange(0, 0) =~= needle@);
            assert(matches_at(hay@, 0, needle@));
        }
        return true;
    }
    let mut i: usize = 0;
    while i < hay.len()
        invariant
            i <= hay@.len(),
            needle@.len() > 0,
            forall|k: int| 0 <= k < i ==> !matches_at(hay@, k, needle@),
        decreases hay@.len() - i,
    {
        if check_match_at(hay, i, needle) {
            return true;
        }
        i = i + 1;
    }
    proof {
        assert forall|k: int| !matches_at(hay@, k, needle@) by {
            if matches_at(hay@, k, needle@) {
                assert(0 <= k < hay@.len());
            }
        }
    }
    false
}

/// A changed path is ignored when any ignore entry occurs in it, or its file
/// name starts with a dot or a hash or ends with a tilde — version-control
/// and build directories, editor swap and backup files, dotfiles.
pub open spec fn spec_path_ignored(
    path: Seq<char>,
    name: Seq<char>,
    ignores: Seq<Seq<char>>,
) -> bool {
    ||| exists|k: int| 0 <= k < ignores.len() && contains_sub(path, #[trigger] ignores[k])
    ||| (name.len() > 0 && name[0] == '.')
    ||| (name.len() > 0 && name[0] == '#')
    ||| (name.len() > 0 && name[name.len() - 1] == '~')
}

/// Decides whether one changed path is ignored, `name` being its final
/// component.
pub fn path_is_ignored(path: &str, name: &str, ignores: &Vec<String>) -> (r: bool)
    ensures
        r == spec_path_ignored(path@, name@, ignores.deep_view()),
{
    let pv = chars_of(path);
    let nv = chars_of(name);
    if nv.len() > 0 {
        let first = nv[0];
        let last = nv[nv.len() - 1];
        if first == '.' || first == '#' || last == '~' {
            return true;
        }
    }
    let mut k: usize = 0;
    while k < ignores.len()
        invariant
            k <= ignores@.len(),
            pv@ == path@,
            forall|h: int|
                0 <= h < k ==> !contains_sub(path@, #[trigger] ignores.deep_view()[h]),
        decreases ignores@.len() - k,
    {
        let iv = chars_of(ignores[k].as_str());
        proof {
            assert(iv@ == ignores.deep_view()[k as int]);
        }
        if contains_sub_exec(&pv, &iv) {
            return true;
        }
        k = k + 1;
    }
    false
}

/// A change event triggers a rebuild when its kind is a modification or a
/// creation and at least one affected path survives the ignore filter. The
/// caller hands each path with its final component.
pub fn event_triggers_rebuild(
    paths: &Vec<String>,
    names: &Vec<String>,
    ignores: &Vec<String>,
    is_modify: bool,
    is_create: bool,
) -> (r: bool)
    requires
        names@.len() == paths@.len(),
    ensures
        r == ((is_modify || is_create) && exists|p: int|
            0 <= p < paths@.len() && !spec_path_ignored(
                #[trigger] paths.deep_view()[p],
                names.deep_view()[p],
                ignores.deep_view(),
            )),
{
    if !(is_modify || is_create) {
        return false;
    }
    let mut p: usize = 0;
    while p < paths.len()
        invariant
            is_modify || is_create,
            p <= paths@.len(),
            names@.len() == paths@.len(),
            forall|h: int|
                0 <= h < p ==> spec_path_ignored(
                    #[trigger] paths.deep_view()[h],
                    names.deep_view()[h],
                    ignores.deep_view(),
                ),
        decreases paths@.len() - p,
    {
        if !path_is_ignored(paths[p].as_str(), names[p].as_str(), ignores) {
            proof {
                assert(paths.deep_view()[p as int] == paths@[p as int]@);
                assert(names.deep_view()[p as int] == names@[p as int]@);
            }
            return true;
        }
        proof {
            assert(paths.deep_view()[p as int] == paths@[p as int]@);
            assert(names.deep_view()[p as int] == names@[p as int]@);
        }
        p = p + 1;
    }
    false
}

/// The bounded rebuild-token queue: pending token count, never above the
/// queue's capacity.
pub struct RebuildQueue {
    /// Tokens waiting for the consumer.
    pub pending: usize,
    /// The queue's fixed capacity.
    pub cap: usize,
}

/// A queue is well formed when its load respects its capacity.
pub open spec fn queue_wf(q: RebuildQueue) -> bool {
    q.pending <= q.cap
}

/// What one offered token leaves pending: one more, unless the queue is
/// full — a full queue drops the token silently.
pub open spec fn spec_offer(pending: nat, cap: nat) -> nat {
    if pending < cap {
        pending + 1
    } else {
        pending
    }
}

/// What `n` offered tokens leave pending, starting from `pending`.
pub open spec fn spec_offer_n(pending: nat, n: nat, cap: nat) -> nat
    decreases n,
{
    if n == 0 {
        pending
    } else {
        spec_offer(spec_offer_n(pending, (n - 1) as nat, cap), cap)
    }
}

impl RebuildQueue {
    /// An empty queue of the given capacity.
    pub fn new(cap: usize) -> (q: RebuildQueue)
        ensures
            q.pending == 0,
            q.cap == cap,
            queue_wf(q),
    {
        RebuildQueue { pending: 0, cap }
    }

    /// A surviving change event offers one token; a full queue drops it.
    pub fn offer(&mut self)
        requires
            queue_wf(*old(self)),
        ensures
            queue_wf(*final(self)),
            final(self).cap == old(self).cap,
            final(self).pending == spec_offer(old(self).pending as nat, old(self).cap as nat),
    {
        if self.pending < self.cap {
            self.pending = self.pending + 1;
        }
    }

    /// The consumer's cycle, entered when a token is pending: it sleeps out
    /// the debounce interval, drains every token that arrived meanwhile, and
    /// rebuilds exactly once.
    pub fn consume_cycle(&mut self) -> (rebuilds: usize)
        requires
            queue_wf(*old(self)),
            old(self).pending > 0,
        ensures
            queue_wf(*final(self)),
            final(self).cap == old(self).cap,
            final(self).pending == 0,
            rebuilds == 1,
    {
        self.pending = 0;
        1
    }
}

/// Any positive burst of triggers within one debounce window leaves the
/// consumer at least one token, and its single cycle then rebuilds exactly
/// once and leaves nothing pending: `n` rapid triggers yield one rebuild.
pub proof fn lemma_debounce_coalesces(n: nat, cap: nat)
    requires
        n >= 1,
        cap >= 1,
    ensures
        spec_offer_n(0, n, cap) >= 1,
        spec_offer_n(0, n, cap) <= cap,
    decreases n,
{
    if n == 1 {
        assert(spec_offer_n(0, 0, cap) == 0);
    } else {
        lemma_debounce_coalesces((n - 1) as nat, cap);
    }
}

} // verus!
