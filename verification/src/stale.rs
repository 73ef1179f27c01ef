//! Incremental staleness tracking.
//!
//! A single timestamp — the end time of the previous build — governs
//! re-emission: an item's output is (re)written iff its source is newer than
//! that timestamp or the destination file is absent. Absence always forces a
//! write, whatever the timestamp says.

use vstd::prelude::*;

verus! {

/// The staleness rule: a source with modification time `mtime` is due for
/// regeneration against a build stamp `last_run` unless its destination
/// already exists and is no older than the last build.
pub open spec fn spec_is_stale(mtime: u64, last_run: u64, dest_exists: bool) -> bool {
    mtime > last_run || !dest_exists
}

/// Decides whether one item's output must be written.
pub fn is_stale(mtime: u64, last_run: u64, dest_exists: bool) -> (r: bool)
    ensures
        r == spec_is_stale(mtime, last_run, dest_exists),
{
    mtime > last_run || !dest_exists
}

/// An absent destination always forces a write, whatever the timestamp and
/// the source's age say.
pub proof fn lemma_absent_destination_forces_write(mtime: u64, last_run: u64)
    ensures
        spec_is_stale(mtime, last_run, false),
{
}

/// The process-wide staleness timestamp: read once at build start, overwritten
/// with "now" at build end regardless of partial failures. The caller keeps it
/// behind a lock; the cell itself is plain data.
pub struct BuildStamp {
    /// End time of the previous build, in seconds since the epoch;
    /// zero (the epoch itself) before the first build of the process.
    pub last_run: u64,
}

impl BuildStamp {
    /// A fresh stamp, as at process start: no build has completed yet,
    /// so every source is stale.
    pub fn new() -> (r: BuildStamp)
        ensures
            r.last_run == 0,
    {
        BuildStamp { last_run: 0 }
    }

    /// The read-once snapshot taken at build start.
    pub fn snapshot(&self) -> (r: u64)
        ensures
            r == self.last_run,
    {
        self.last_run
    }

    /// The write-once update at build end: the stamp becomes the present
    /// moment, unconditionally.
    pub fn complete(&mut self, now: u64)
        ensures
            final(self).last_run == now,
    {
        self.last_run = now;
    }
}

} // verus!
