//! Sets of byte offsets kept as disjoint inclusive ranges (`RangeSetBlaze<u64>`),
//! and the bookkeeping the accessors do with them: which bytes were written,
//! which of those were synced to disk, and which written run a read starts in.

use range_set_blaze::RangeSetBlaze;
use vstd::prelude::*;

verus! {

/// A set of byte offsets, held as a `RangeSetBlaze<u64>`: sorted ranges that
/// neither overlap nor touch.
#[verifier::external_body]
pub struct OffsetSet {
    ranges: RangeSetBlaze<u64>,
}

/// The offsets an `OffsetSet` holds.
pub uninterp spec fn range_set_members(s: OffsetSet) -> Set<u64>;

impl View for OffsetSet {
    type V = Set<u64>;

    open spec fn view(&self) -> Set<u64> {
        range_set_members(*self)
    }
}

/// The offsets from `start` to `end`, both included (empty when `end < start`).
pub open spec fn span(start: int, end: int) -> Set<u64> {
    Set::new(|x: u64| start <= x && x <= end)
}

/// `RangeSetBlaze::new`: an empty set.
#[verifier::external_body]
fn range_set_new() -> (s: OffsetSet)
    ensures
        range_set_members(s) == Set::<u64>::empty(),
{
    OffsetSet { ranges: RangeSetBlaze::new() }
}

/// `RangeSetBlaze::ranges_insert` with `start..=end`: adds every offset of the
/// range (none when `end < start`).
#[verifier::external_body]
fn range_set_ranges_insert(s: &mut OffsetSet, start: u64, end: u64)
    ensures
        range_set_members(*final(s)) == range_set_members(*old(s)).union(span(start as int, end as int)),
{
    s.ranges.ranges_insert(start..=end);
}

/// The predicate handed to `RangeSetBlaze::retain` by `range_set_retain_below`.
pub fn is_below(n: u64, size: u64) -> (r: bool)
    ensures
        r == (n < size),
{
    n < size
}

/// `RangeSetBlaze::retain` with the predicate `n < size`: keeps the offsets
/// below `size` and removes the others.
#[verifier::external_body]
fn range_set_retain_below(s: &mut OffsetSet, size: u64)
    ensures
        range_set_members(*final(s)) == range_set_members(*old(s)).filter(|x: u64| x < size),
{
    s.ranges.retain(|n: &u64| is_below(*n, size));
}

/// The derived `Clone` of `RangeSetBlaze`: a set with the same offsets.
#[verifier::external_body]
fn range_set_clone(s: &OffsetSet) -> (c: OffsetSet)
    ensures
        range_set_members(c) == range_set_members(*s),
{
    OffsetSet { ranges: s.ranges.clone() }
}

/// `&a - &b` on two `RangeSetBlaze`s: the offsets of `a` that `b` lacks.
#[verifier::external_body]
fn range_set_difference(a: &OffsetSet, b: &OffsetSet) -> (d: OffsetSet)
    ensures
        range_set_members(d) == range_set_members(*a).difference(range_set_members(*b)),
{
    OffsetSet { ranges: &a.ranges - &b.ranges }
}

/// `&a & &b` on two `RangeSetBlaze`s: the offsets both hold.
#[verifier::external_body]
fn range_set_intersection(a: &OffsetSet, b: &OffsetSet) -> (d: OffsetSet)
    ensures
        range_set_members(d) == range_set_members(*a).intersect(range_set_members(*b)),
{
    OffsetSet { ranges: &a.ranges & &b.ranges }
}

/// `RangeSetBlaze::len`: how many offsets the set holds.
#[verifier::external_body]
fn range_set_len(s: &OffsetSet) -> (n: u128)
    ensures
        n == range_set_members(*s).len(),
{
    s.ranges.len()
}

/// `RangeSetBlaze::from_iter` on the single range `start..=end`.
#[verifier::external_body]
fn range_set_from_range(start: u64, end: u64) -> (s: OffsetSet)
    ensures
        range_set_members(s) == span(start as int, end as int),
{
    OffsetSet { ranges: RangeSetBlaze::from_iter([start..=end]) }
}

/// `RangeSetBlaze::ranges().next()`: the lowest of the set's ranges, as its two
/// ends. The ranges of a `RangeSetBlaze` are disjoint and never touch, and come
/// in ascending order, so this is the run of consecutive offsets that starts at
/// the set's least offset and goes as far as the set does without a gap.
#[verifier::external_body]
fn range_set_first_range(s: &OffsetSet) -> (r: Option<(u64, u64)>)
    ensures
        r is None <==> range_set_members(*s) == Set::<u64>::empty(),
        r matches Some((lo, hi)) ==> {
            &&& lo <= hi
            &&& span(lo as int, hi as int).subset_of(range_set_members(*s))
            &&& forall|x: u64| #[trigger] range_set_members(*s).contains(x) ==> lo <= x
            &&& !range_set_members(*s).contains((hi + 1) as u64) || hi == u64::MAX
        },
{
    s.ranges.ranges().next().map(|r| r.into_inner())
}

impl Clone for OffsetSet {
    /// A set with the same offsets.
    fn clone(&self) -> (c: Self)
        ensures
            c@ == self@,
    {
        range_set_clone(self)
    }
}

/// An empty set of offsets.
pub fn empty_ranges() -> (s: OffsetSet)
    ensures
        range_set_members(s) == Set::<u64>::empty(),
{
    range_set_new()
}

/// How many offsets `a` holds that `b` lacks.
pub fn count_missing(a: &OffsetSet, b: &OffsetSet) -> (n: u128)
    ensures
        n == range_set_members(*a).difference(range_set_members(*b)).len(),
{
    let d = range_set_difference(a, b);
    range_set_len(&d)
}

/// Adds the offsets from `start` to `end`, both included; nothing when
/// `end < start`.
pub fn insert_span(s: &mut OffsetSet, start: u64, end: u64)
    ensures
        final(s)@ == old(s)@.union(span(start as int, end as int)),
{
    range_set_ranges_insert(s, start, end)
}

/// Adds the `n` offsets from `start` on; nothing when `n` is 0.
pub fn record_span(s: &mut OffsetSet, start: u64, n: usize)
    requires
        start + n <= u64::MAX,
    ensures
        final(s)@ == old(s)@.union(span(start as int, start + n - 1)),
{
    if n > 0 {
        insert_span(s, start, start + (n - 1) as u64);
    } else {
        assert(span(start as int, start - 1) =~= Set::<u64>::empty());
        assert(old(s)@.union(Set::<u64>::empty()) =~= old(s)@);
    }
}

/// What a truncation or extension of the file to `size` bytes does to the
/// bookkeeping: only the written offsets below `size` stay written, and they
/// are all taken as synced.
pub fn truncate_written(writed: &mut OffsetSet, synced: &mut OffsetSet, size: u64)
    ensures
        final(writed)@ == old(writed)@.filter(|x: u64| x < size),
        final(synced)@ == final(writed)@,
{
    range_set_retain_below(writed, size);
    *synced = writed.clone();
}

/// What a finished truncation or extension job records, given what setting
/// the length gave: on success only the written offsets below `size` stay
/// written, and they are all taken as synced; on failure nothing changes.
pub fn set_len_recorded<E>(writed: &mut OffsetSet, synced: &mut OffsetSet, size: u64, result: &Result<u64, E>)
    ensures
        match result {
            Ok(_) => final(writed)@ == old(writed)@.filter(|x: u64| x < size) && final(synced)@ == final(writed)@,
            Err(_) => final(writed)@ == old(writed)@ && final(synced)@ == old(synced)@,
        },
{
    match result {
        Ok(_) => truncate_written(writed, synced, size),
        Err(_) => {},
    }
}

/// Every set of offsets is finite: its members lie among the `2^64` offsets.
pub proof fn lemma_offsets_finite(s: Set<u64>)
    ensures
        s.finite(),
{
    let all = vstd::set_lib::set_int_range(0, 0x1_0000_0000_0000_0000);
    vstd::set_lib::lemma_int_range(0, 0x1_0000_0000_0000_0000);
    let f = |i: int| i as u64;
    all.lemma_map_finite(f);
    let mapped = all.map(f);
    assert forall|x: u64| s.contains(x) implies mapped.contains(x) by {
        assert(all.contains(x as int));
        assert(f(x as int) == x);
    }
    vstd::set_lib::lemma_set_subset_finite(mapped, s);
}

/// What a sync does to the bookkeeping: every written offset is synced, and
/// nothing else.
pub fn adopt_written(synced: &mut OffsetSet, writed: &OffsetSet)
    ensures
        final(synced)@ == writed@,
{
    *synced = writed.clone();
}

/// The last offset of the run of written offsets that starts at `start`,
/// within `start..=end`.
pub open spec fn is_run_end(w: Set<u64>, start: u64, end: u64, hi: u64) -> bool {
    &&& start <= hi <= end
    &&& span(start as int, hi as int).subset_of(w)
    &&& (hi < end ==> !w.contains((hi + 1) as u64))
}

/// A written run has one end: two offsets that both end the written run from
/// `start` (looking no further than `end`) are the same, and every offset from
/// `start` to that end is written.
pub proof fn lemma_run_end_unique(w: Set<u64>, start: u64, end: u64, hi: u64, hi2: u64)
    requires
        is_run_end(w, start, end, hi),
        is_run_end(w, start, end, hi2),
    ensures
        hi == hi2,
        forall|x: u64| start <= x <= hi ==> #[trigger] w.contains(x),
{
    if hi < hi2 {
        assert(span(start as int, hi2 as int).contains((hi + 1) as u64));
    } else if hi2 < hi {
        assert(span(start as int, hi as int).contains((hi2 + 1) as u64));
    }
    assert forall|x: u64| start <= x <= hi implies #[trigger] w.contains(x) by {
        assert(span(start as int, hi as int).contains(x));
    }
}

/// Where the written run that starts at `start` ends, looking no further
/// than `end`: `None` when `start` itself is not written or `end < start`.
/// This is the first range of what `start..=end` and the written offsets
/// share, when that range starts at `start`.
pub fn first_written_run(writed: &OffsetSet, start: u64, end: u64) -> (r: Option<u64>)
    ensures
        r is Some <==> (start <= end && writed@.contains(start)),
        r matches Some(hi) ==> is_run_end(writed@, start, end, hi),
{
    let sub = range_set_from_range(start, end);
    let both = range_set_intersection(&sub, writed);
    match range_set_first_range(&both) {
        Some((lo, hi)) => {
            if lo == start {
                proof {
                    assert(span(lo as int, hi as int).contains(lo));
                    assert(span(lo as int, hi as int).contains(hi));
                    assert forall|x: u64| span(start as int, hi as int).contains(x) implies writed@.contains(x) by {
                        assert(span(lo as int, hi as int).contains(x));
                    }
                    if hi < end && writed@.contains((hi + 1) as u64) {
                        assert(span(start as int, end as int).contains((hi + 1) as u64));
                        assert(range_set_members(both).contains((hi + 1) as u64));
                    }
                }
                Some(hi)
            } else {
                proof {
                    if start <= end && writed@.contains(start) {
                        assert(span(start as int, end as int).contains(start));
                        assert(range_set_members(both).contains(start));
                        assert(span(lo as int, hi as int).contains(lo));
                    }
                }
                None
            }
        },
        None => {
            proof {
                if start <= end && writed@.contains(start) {
                    assert(span(start as int, end as int).contains(start));
                    assert(range_set_members(both).contains(start));
                }
            }
            None
        },
    }
}

/// A synchronous write that the strategy had synced leaves its bytes both
/// written and synced: recording them written, syncing (which makes the synced
/// offsets the written ones), and recording them synced.
pub proof fn lemma_synced_write_recorded(writed: Set<u64>, start: int, n: int)
    ensures
        ({
            let w = writed.union(span(start, start + n - 1));
            let s = w.union(span(start, start + n - 1));
            &&& span(start, start + n - 1).subset_of(w)
            &&& span(start, start + n - 1).subset_of(s)
            &&& s == w
        }),
{
    let w = writed.union(span(start, start + n - 1));
    assert(w.union(span(start, start + n - 1)) =~= w);
}

} // verus!
