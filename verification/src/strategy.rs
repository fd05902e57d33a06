//! When to sync a writer's file to disk.

use crate::range_set::{count_missing, lemma_offsets_finite, range_set_members, record_span, span, OffsetSet};
use vstd::prelude::*;

verus! {

/// A rule, applied after each synchronous write, that tells whether the file
/// should now be synced. It sees the written offsets and the synced ones.
pub trait SyncStrategy {
    /// Whether the rule asks for a sync, given the written and synced offsets.
    spec fn wants_sync(&self, writed: Set<u64>, synced: Set<u64>) -> bool;

    fn should_sync(&self, writed: &OffsetSet, synced: &OffsetSet) -> (r: bool)
        ensures
            r == self.wants_sync(writed@, synced@),
    ;
}

/// The unsynced amount at which the default threshold strategy asks for a sync.
pub const SYNC_THRESHOLD: u128 = 8192;

/// Syncs once at least a threshold of written bytes are not synced yet.
pub struct ThresholdSyncStrategy(u128);

impl ThresholdSyncStrategy {
    /// How many unsynced bytes make this strategy ask for a sync.
    pub closed spec fn threshold(&self) -> u128 {
        self.0
    }
}

impl Default for ThresholdSyncStrategy {
    fn default() -> (s: Self)
        ensures
            s.threshold() == SYNC_THRESHOLD,
    {
        ThresholdSyncStrategy(SYNC_THRESHOLD)
    }
}

impl SyncStrategy for ThresholdSyncStrategy {
    open spec fn wants_sync(&self, writed: Set<u64>, synced: Set<u64>) -> bool {
        writed.difference(synced).len() >= self.threshold()
    }

    fn should_sync(&self, writed: &OffsetSet, synced: &OffsetSet) -> (r: bool)
        ensures
            r == (range_set_members(*writed).difference(range_set_members(*synced)).len()
                >= self.threshold()),
    {
        count_missing(writed, synced) >= self.0
    }
}

/// Syncs after every synchronous write.
#[derive(Default)]
pub struct ImmediateSyncStrategy;

impl SyncStrategy for ImmediateSyncStrategy {
    open spec fn wants_sync(&self, writed: Set<u64>, synced: Set<u64>) -> bool {
        true
    }

    fn should_sync(&self, writed: &OffsetSet, synced: &OffsetSet) -> (r: bool)
        ensures
            r,
    {
        true
    }
}

/// The step of a synchronous write of `n` bytes from `start`, once they are
/// written and before the file may be synced: they are recorded as written,
/// and the strategy says, over the new written offsets, whether to sync. After
/// a sync that succeeded, `record_span` records the same bytes as synced.
pub fn sync_write_step<S: SyncStrategy>(
    strategy: &S,
    writed: &mut OffsetSet,
    synced: &OffsetSet,
    start: u64,
    n: usize,
) -> (need_sync: bool)
    requires
        start + n <= u64::MAX,
    ensures
        final(writed)@ == old(writed)@.union(span(start as int, start + n - 1)),
        need_sync == strategy.wants_sync(final(writed)@, synced@),
{
    record_span(writed, start, n);
    strategy.should_sync(writed, synced)
}

/// Right after a sync every written offset is synced, so the threshold
/// strategy, with any positive threshold, asks for no further sync.
pub proof fn lemma_synced_needs_no_sync(writed: Set<u64>, threshold: u128)
    requires
        threshold > 0,
    ensures
        !(writed.difference(writed).len() >= threshold),
{
    assert(writed.difference(writed) =~= Set::<u64>::empty());
}

/// Syncing more never makes the threshold strategy ask for a sync: with
/// more offsets synced (or fewer written) no more are left unsynced, so a
/// strategy that did not ask still does not.
pub proof fn lemma_threshold_monotone(
    strategy: ThresholdSyncStrategy,
    writed: Set<u64>,
    synced: Set<u64>,
    fewer_writed: Set<u64>,
    more_synced: Set<u64>,
)
    requires
        fewer_writed.subset_of(writed),
        synced.subset_of(more_synced),
        !strategy.wants_sync(writed, synced),
    ensures
        !strategy.wants_sync(fewer_writed, more_synced),
{
    lemma_offsets_finite(writed.difference(synced));
    assert(fewer_writed.difference(more_synced).subset_of(writed.difference(synced)));
    vstd::set_lib::lemma_len_subset(fewer_writed.difference(more_synced), writed.difference(synced));
}

} // verus!
