//! What committing blocks does to the ring, to the note index and to the
//! counters, around the writes to the sealed store.

use vstd::prelude::*;
use crate::miner::work;
use crate::miner::work::limbs_be;
use crate::node::notes;
use crate::node::notes::{Announcement, NoteIndex};
use crate::node::ring;
use crate::node::ring::{new_ring, Entry, UnsealedInner};

verus! {

/// How much has been committed.
#[derive(Clone, Copy, Debug, PartialEq, Eq)]
pub struct CommitStats {
    pub blocks: u64,
    pub reorgs: u64,
    pub forced_seals: u64,
}

impl Default for CommitStats {
    fn default() -> (s: CommitStats)
        ensures
            s == (CommitStats { blocks: 0, reorgs: 0, forced_seals: 0 }),
    {
        CommitStats { blocks: 0, reorgs: 0, forced_seals: 0 }
    }
}

/// The height that a reorganisation goes back to: below the last block that is
/// rolled back, or else below the first that is applied.
pub open spec fn fork_of(rollback: Seq<u64>, first: Option<u64>) -> u64 {
    if rollback.len() > 0 {
        (rollback.last() - 1) as u64
    } else {
        below(first, 0)
    }
}

/// The height below the first applied block, or `other` where none is applied.
pub open spec fn below(first: Option<u64>, other: u64) -> u64 {
    match first {
        Some(h) => if h > 0 {
            (h - 1) as u64
        } else {
            0
        },
        None => other,
    }
}

/// The height that a reorganisation goes back to.
pub fn fork_height(rollback: &[u64], first: Option<u64>) -> (h: u64)
    requires
        rollback@.len() > 0 ==> rollback@.last() > 0,
    ensures
        h == fork_of(rollback@, first),
{
    let n: usize = rollback.len();
    if n > 0 {
        return rollback[n - 1] - 1;
    }
    deep_fork_height(first, 0)
}

/// The height that a deep reorganisation goes back to: below the first applied
/// block, or where it rewinds to.
pub fn deep_fork_height(first: Option<u64>, rewind_to: u64) -> (h: u64)
    ensures
        h == below(first, rewind_to),
{
    match first {
        Some(f) => f.saturating_sub(1),
        None => rewind_to,
    }
}

/// The work of a chain as thirty-two bytes, the highest first.
pub fn work_be(w: &[u64; 4]) -> (b: [u8; 32])
    ensures
        b@ == work::be_bytes(work::limbs_value(w@), 32),
{
    limbs_be(w)
}

/// Why the store could not write.
#[derive(Clone, Debug, PartialEq, Eq)]
pub enum StoreError {
    BadPlan(String),
    UndoExhausted,
    ForkBelowPruneFloor,
    Other,
}

/// What the chain is told: that the blocks cannot be written, or that nothing
/// can be any more.
#[derive(Clone, Debug, PartialEq, Eq)]
pub enum SinkError {
    Invalid(String),
    Fatal(String),
}

pub open spec fn sink_error(e: StoreError) -> (bool, Seq<char>) {
    match e {
        StoreError::BadPlan(d) => (true, d@),
        StoreError::UndoExhausted => (true, "undo ring exhausted"@),
        StoreError::ForkBelowPruneFloor => (true, "fork below the prune floor"@),
        StoreError::Other => (false, "storage write failed"@),
    }
}

/// What the chain is told of a write that failed.
pub fn storage_err(e: StoreError) -> (r: SinkError)
    ensures
        match r {
            SinkError::Invalid(t) => sink_error(e) == (true, t@),
            SinkError::Fatal(t) => sink_error(e) == (false, t@),
        },
{
    match e {
        StoreError::BadPlan(d) => SinkError::Invalid(d),
        StoreError::UndoExhausted => SinkError::Invalid("undo ring exhausted".to_owned()),
        StoreError::ForkBelowPruneFloor => SinkError::Invalid(
            "fork below the prune floor".to_owned(),
        ),
        StoreError::Other => SinkError::Fatal("storage write failed".to_owned()),
    }
}

/// The ring, the notes and the counters of a node that commits blocks.
#[derive(Clone, Debug)]
pub struct CommitSink {
    pub ring: UnsealedInner,
    pub notes: NoteIndex,
    pub stats: CommitStats,
}

impl CommitSink {
    pub open spec fn wf(self) -> bool {
        self.ring.wf() && self.notes.wf()
    }

    /// Nothing is committed yet.
    pub fn new() -> (s: CommitSink)
        ensures
            s.wf(),
            s.ring.entries@.len() == 0,
            s.notes.all().len() == 0,
            s.stats == (CommitStats { blocks: 0, reorgs: 0, forced_seals: 0 }),
    {
        CommitSink { ring: new_ring(), notes: NoteIndex::new(), stats: CommitStats::default() }
    }

    /// How much has been committed.
    pub fn stats(&self) -> (s: CommitStats)
        ensures
            s == self.stats,
    {
        self.stats
    }

    /// Whether the store must be flushed before the next block goes in.
    pub fn must_seal(&self) -> (r: bool)
        requires
            self.wf(),
        ensures
            r == (self.ring.entries@.len() >= ring::RING_MAX_BLOCKS || ring::total(
                self.ring.entries@,
            ) >= ring::RING_MAX_BYTES),
    {
        self.ring.must_seal()
    }

    /// The store was flushed because the ring had reached a bound.
    pub fn sealed_early(&mut self)
        requires
            old(self).stats.forced_seals < u64::MAX,
        ensures
            final(self).ring == old(self).ring,
            final(self).notes == old(self).notes,
            final(self).stats == (CommitStats {
                forced_seals: (old(self).stats.forced_seals + 1) as u64,
                ..old(self).stats
            }),
    {
        self.stats.forced_seals += 1;
    }

    /// A block goes into the ring before it is written, so that no read misses
    /// it meanwhile.
    pub fn offered(&mut self, e: Entry)
        requires
            old(self).wf(),
            old(self).ring.bytes + e.body@.len() <= usize::MAX,
        ensures
            final(self).wf(),
            final(self).ring.entries@ == old(self).ring.entries@.push(e),
            final(self).notes == old(self).notes,
            final(self).stats == old(self).stats,
    {
        self.ring.push(e);
    }

    /// A block was written. Its announcements are noted, and what lies below the
    /// watermark is left to the sealed store.
    pub fn committed(&mut self, height: u64, found: &[Announcement], watermark: u64)
        requires
            old(self).wf(),
            old(self).stats.blocks < u64::MAX,
        ensures
            final(self).wf(),
            final(self).ring.entries@ == ring::kept(old(self).ring.entries@, watermark),
            final(self).notes.all() == old(self).notes.all() + notes::block_notes(height, found@),
            final(self).stats == (CommitStats {
                blocks: (old(self).stats.blocks + 1) as u64,
                ..old(self).stats
            }),
    {
        self.notes.on_block(height, found);
        self.ring.prune(watermark);
        self.stats.blocks += 1;
    }

    /// The store was flushed or written to otherwise.
    pub fn written(&mut self, watermark: u64)
        requires
            old(self).wf(),
        ensures
            final(self).wf(),
            final(self).ring.entries@ == ring::kept(old(self).ring.entries@, watermark),
            final(self).notes == old(self).notes,
            final(self).stats == old(self).stats,
    {
        self.ring.prune(watermark);
    }

    /// A reorganisation begins, and the store has been flushed: it abandons the
    /// unsealed tail.
    pub fn abandoned(&mut self)
        requires
            old(self).wf(),
        ensures
            final(self).wf(),
            final(self).ring.entries@.len() == 0,
            final(self).notes == old(self).notes,
            final(self).stats == old(self).stats,
    {
        self.ring.clear();
    }

    /// A reorganisation was written. The notes of the blocks above the fork go,
    /// and those of the applied blocks come.
    pub fn reorganised(&mut self, fork_height: u64, applied: &[(u64, Vec<Announcement>)])
        requires
            old(self).wf(),
            old(self).stats.reorgs < u64::MAX,
            old(self).stats.blocks + applied@.len() <= u64::MAX,
        ensures
            final(self).wf(),
            final(self).ring == old(self).ring,
            final(self).notes.all() == notes::applied_notes(
                notes::retained(old(self).notes.all(), fork_height),
                applied@,
            ),
            final(self).stats == (CommitStats {
                blocks: (old(self).stats.blocks + applied@.len()) as u64,
                reorgs: (old(self).stats.reorgs + 1) as u64,
                ..old(self).stats
            }),
    {
        self.notes.on_reorg(fork_height, applied);
        self.stats.reorgs += 1;
        self.stats.blocks += applied.len() as u64;
    }
}

// ---------------------------------------------------------------------------
// What a commit keeps

/// A reorganisation goes back to below the last block that it rolls back; where
/// it rolls none back, to below the first that it applies.
pub proof fn law_a_fork_lies_below_what_changes(rollback: &[u64], first: Option<u64>, h: u64)
    requires
        rollback@.len() > 0 ==> rollback@.last() > 0,
        call_ensures(fork_height, (rollback, first), h),
    ensures
        rollback@.len() > 0 ==> h + 1 == rollback@.last(),
        rollback@.len() == 0 ==> (first matches Some(f) ==> h == (if f > 0 {
            f - 1
        } else {
            0
        })),
        rollback@.len() == 0 && first is None ==> h == 0,
{
}

/// A deep reorganisation goes back to below the first block that it applies;
/// where it applies none, to where it rewinds.
pub proof fn law_a_deep_fork_lies_below_what_is_applied(first: Option<u64>, to: u64, h: u64)
    requires
        call_ensures(deep_fork_height, (first, to), h),
    ensures
        first is None ==> h == to,
        first matches Some(f) ==> h == (if f > 0 {
            f - 1
        } else {
            0
        }),
{
}

/// A write that the plan made impossible is the chain's to answer for; any other
/// failure of the store is fatal.
pub proof fn law_only_a_bad_plan_is_invalid(e: StoreError, r: SinkError)
    requires
        call_ensures(storage_err, (e,), r),
    ensures
        r is Fatal <==> e is Other,
        r is Invalid <==> e is BadPlan || e is UndoExhausted || e is ForkBelowPruneFloor,
        e matches StoreError::BadPlan(d) ==> (r matches SinkError::Invalid(t) && t@ == d@),
{
}

/// A block that is offered is read at once, before it is written: it is the
/// newest of the ring, at its height and under its hash.
pub proof fn law_an_offered_block_is_read(s: &mut CommitSink, e: Entry)
    requires
        old(s).wf(),
        old(s).ring.bytes + e.body@.len() <= usize::MAX,
        call_ensures(CommitSink::offered, (s, e), ()),
    ensures
        final(s).ring.entries@.len() == old(s).ring.entries@.len() + 1,
        final(s).ring.entries@.last() == e,
        forall|i: int|
            0 <= i < old(s).ring.entries@.len() ==> final(s).ring.entries@[i]
                == old(s).ring.entries@[i],
        ring::entry_at(final(s).ring.entries@, e.height) == Some(e),
        ring::entry_with(final(s).ring.entries@, e.hash@) == Some(e),
        final(s).stats == old(s).stats,
        final(s).notes == old(s).notes,
{
    ring::law_a_pushed_block_is_read(old(s).ring.entries@, e, e.height, e.hash@);
}

/// A block that was written is counted once and its announcements are noted once;
/// of the ring only what lies below the watermark goes.
pub proof fn law_a_written_block_is_counted(
    s: &mut CommitSink,
    height: u64,
    found: &[Announcement],
    watermark: u64,
    i: int,
)
    requires
        old(s).wf(),
        old(s).stats.blocks < u64::MAX,
        call_ensures(CommitSink::committed, (s, height, found, watermark), ()),
    ensures
        final(s).stats.blocks == old(s).stats.blocks + 1,
        final(s).stats.reorgs == old(s).stats.reorgs,
        final(s).stats.forced_seals == old(s).stats.forced_seals,
        final(s).notes.notes@.len() == old(s).notes.notes@.len() + found@.len(),
        0 <= i < old(s).ring.entries@.len() && old(s).ring.entries@[i].height >= watermark
            ==> final(s).ring.entries@.contains(old(s).ring.entries@[i]),
        0 <= i < final(s).ring.entries@.len() ==> final(s).ring.entries@[i].height >= watermark
            && old(s).ring.entries@.contains(final(s).ring.entries@[i]),
{
    let es = old(s).ring.entries@;
    assert(final(s).notes.all().len() == final(s).notes.notes@.len());
    lemma_kept_holds(es, watermark, i);
}

proof fn lemma_kept_holds(es: Seq<Entry>, watermark: u64, i: int)
    ensures
        0 <= i < es.len() && es[i].height >= watermark ==> ring::kept(es, watermark).contains(
            es[i],
        ),
        0 <= i < ring::kept(es, watermark).len() ==> ring::kept(es, watermark)[i].height
            >= watermark && es.contains(ring::kept(es, watermark)[i]),
    decreases es.len(),
{
    if es.len() > 0 {
        let t = es.drop_last();
        let k = ring::kept(t, watermark);
        lemma_kept_holds(t, watermark, i);
        assert(es =~= t.push(es.last()));
        ring::law_prune_keeps_blocks_in_order(t, es.last(), watermark);
        if 0 <= i < es.len() && es[i].height >= watermark {
            if i < t.len() {
                assert(t[i] == es[i]);
                let m = choose|m: int| 0 <= m < k.len() && k[m] == es[i];
                assert(ring::kept(es, watermark)[m] == es[i]);
            } else {
                assert(ring::kept(es, watermark)[k.len() as int] == es[i]);
            }
        }
        if 0 <= i < ring::kept(es, watermark).len() {
            if i < k.len() {
                let m = choose|m: int| 0 <= m < t.len() && t[m] == k[i];
                assert(es[m] == k[i]);
            } else {
                assert(es[es.len() - 1] == ring::kept(es, watermark)[i]);
            }
        }
    } else {
        ring::law_prune_keeps_blocks_in_order(es, arbitrary(), watermark);
        assert(es =~= Seq::empty());
    }
}

/// A reorganisation counts as one, and each block that it applies as a block. No
/// note above the fork stays but those of the applied blocks, and every note at or
/// below it does.
pub proof fn law_a_reorganisation_is_counted(
    s: &mut CommitSink,
    fork: u64,
    applied: &[(u64, Vec<Announcement>)],
    i: int,
)
    requires
        old(s).wf(),
        old(s).stats.reorgs < u64::MAX,
        old(s).stats.blocks + applied@.len() <= u64::MAX,
        call_ensures(CommitSink::reorganised, (s, fork, applied), ()),
    ensures
        final(s).stats.reorgs == old(s).stats.reorgs + 1,
        final(s).stats.blocks == old(s).stats.blocks + applied@.len(),
        final(s).stats.forced_seals == old(s).stats.forced_seals,
        final(s).ring == old(s).ring,
        applied@.len() == 0 && 0 <= i < final(s).notes.notes@.len()
            ==> final(s).notes.notes@[i].height <= fork,
{
    let ns = old(s).notes.all();
    assert(final(s).notes.all().len() == final(s).notes.notes@.len());
    if applied@.len() == 0 && 0 <= i < final(s).notes.notes@.len() {
        assert(applied@ =~= Seq::empty());
        assert(final(s).notes.all() == notes::retained(ns, fork));
        notes::law_rollback_leaves_nothing_above(ns, fork, i);
        assert(final(s).notes.all()[i].height == final(s).notes.notes@[i].height);
    }
}

/// The store is to be flushed exactly when the ring holds as many blocks, or as
/// many bytes of bodies, as it may.
pub proof fn law_a_full_ring_is_sealed(s: &CommitSink, r: bool)
    requires
        s.wf(),
        call_ensures(CommitSink::must_seal, (s,), r),
    ensures
        s.ring.entries@.len() >= 256 ==> r,
        ring::total(s.ring.entries@) >= 25_165_824 ==> r,
        r ==> s.ring.entries@.len() >= 256 || ring::total(s.ring.entries@)
            >= 25_165_824,
{
}

} // verus!
