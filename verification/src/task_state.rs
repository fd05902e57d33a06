//! What the accessors share: the phase of the background job, the outcomes it
//! reports, the jobs they hand out, and the seek and gather arithmetic.

use crate::ring_buf::{fill_len, RingBuffer, BUFFER_MAX_SIZE};
use vstd::prelude::*;

verus! {

/// What a finished background job did, with the position or error it reports.
pub enum Operation<E> {
    Read(Result<u64, E>),
    Write(Result<u64, E>),
    Seek(Result<u64, E>),
}

/// Whether the accessor holds its buffer (no job runs) or a job has it.
pub enum TaskState {
    Idle(RingBuffer),
    Busy,
}

impl TaskState {
    /// The bytes buffered while idle; `None` while a job runs.
    pub open spec fn held(&self) -> Option<Seq<u8>> {
        match self {
            TaskState::Idle(b) => Some(b@),
            TaskState::Busy => None,
        }
    }

    /// An idle state with an empty buffer.
    pub fn new() -> (t: TaskState)
        ensures
            t.held() == Some(Seq::<u8>::empty()),
    {
        TaskState::Idle(RingBuffer::new())
    }

    /// Whether a job runs.
    pub fn is_busy(&self) -> (r: bool)
        ensures
            r == (self.held() is None),
    {
        match self {
            TaskState::Idle(_) => false,
            TaskState::Busy => true,
        }
    }
}

/// Hands the idle buffer out and marks the state busy.
pub fn take_idle(inner: &mut TaskState) -> (b: RingBuffer)
    requires
        old(inner).held() is Some,
    ensures
        Some(b@) == old(inner).held(),
        final(inner).held() is None,
{
    let mut st = TaskState::Busy;
    std::mem::swap(&mut st, inner);
    match st {
        TaskState::Idle(b) => b,
        TaskState::Busy => vstd::pervasive::unreached(),
    }
}

/// What a poll loop does after a job finished: return this, or poll on.
pub enum Step<T> {
    Return(T),
    Continue,
}

/// Where a seek goes, as `std::io::SeekFrom` says it.
#[derive(PartialEq, Eq, Structural, Clone, Copy, Debug)]
pub enum SeekTarget {
    Start(u64),
    End(i64),
    Current(i64),
}

/// The failures the accessors themselves decide on.
#[derive(PartialEq, Eq, Structural, Clone, Copy, Debug)]
pub enum AccessError {
    /// Another job is still running; its completion must be polled first.
    Busy,
    /// The bytes read do not start with a written run.
    UnexpectedEof,
}

impl AccessError {
    /// The text the accessors report with this failure.
    pub fn message(&self) -> (m: &'static str)
        ensures
            *self == AccessError::Busy ==> m@ == "other file operation is pending, call poll_complete before start_seek"@,
            *self == AccessError::UnexpectedEof ==> m@ == "unexpected end of written data"@,
    {
        match self {
            AccessError::Busy => "other file operation is pending, call poll_complete before start_seek",
            AccessError::UnexpectedEof => "unexpected end of written data",
        }
    }
}

/// A seek for a background job: seek to `base` first when it is given, then
/// to `target`; the job hands `buf` back.
pub struct SeekJob {
    pub base: Option<u64>,
    pub target: SeekTarget,
    pub buf: RingBuffer,
}

/// A write for a background job: seek to `base` when it is given, move the
/// cursor by `mv`, then write the bytes of `buf`, `payload_len` of them.
pub struct WriteJob {
    pub base: Option<u64>,
    pub mv: i64,
    pub buf: RingBuffer,
    pub payload_len: usize,
}

/// A read for a background job: seek to `base` when it is given, then fill
/// the empty `buf` from the file.
pub struct ReadJob {
    pub base: Option<u64>,
    pub buf: RingBuffer,
}

/// A truncation or extension for a background job: seek to `base` when it is
/// given, move the cursor by `mv`, then set the file's length.
pub struct SetLenJob {
    pub base: Option<u64>,
    pub mv: i64,
    pub buf: RingBuffer,
}

/// What a read does while idle: hand out buffered bytes, or start a job.
pub enum ReadIdle {
    Deliver(Vec<u8>),
    Start(ReadJob),
}

/// The seek the job makes for `target` with `held` buffered bytes.
pub open spec fn compensated(target: SeekTarget, held: Seq<u8>) -> SeekTarget {
    match target {
        SeekTarget::Current(rel) => if held.len() > 0 {
            SeekTarget::Current((rel - held.len()) as i64)
        } else {
            target
        },
        _ => target,
    }
}

/// The moved-back relative seek stays within `i64`.
pub open spec fn compensation_fits(target: SeekTarget, held: Seq<u8>) -> bool {
    match target {
        SeekTarget::Current(rel) => held.len() == 0 || rel - held.len() >= i64::MIN,
        _ => true,
    }
}

/// Readies the idle buffer and the target for a seek job: the buffered bytes
/// are dropped, since after the seek reads go on from the target; a relative
/// seek moves back by their number, since the file cursor ran ahead of the
/// user by that many bytes.
pub fn prepare_seek(buf: RingBuffer, target: SeekTarget) -> (r: (SeekTarget, RingBuffer))
    requires
        compensation_fits(target, buf@),
    ensures
        r.0 == compensated(target, buf@),
        r.1@ == Seq::<u8>::empty(),
{
    let mut buf = buf;
    let mv = buf.obsolete();
    match target {
        SeekTarget::Current(rel) => (SeekTarget::Current(rel + mv as i64), buf),
        _ => (target, buf),
    }
}

/// The sum of the lengths of the first `k` slices.
pub open spec fn prefix_total(bufs: Seq<Seq<u8>>, k: int) -> nat
    decreases k,
{
    if k <= 0 {
        0
    } else {
        prefix_total(bufs, k - 1) + bufs[k - 1].len()
    }
}

/// The sum of the lengths of all slices.
pub open spec fn total_len(bufs: Seq<Seq<u8>>) -> nat {
    prefix_total(bufs, bufs.len() as int)
}

/// The views of the slices of a vectored write.
pub open spec fn slice_views(bufs: Seq<Vec<u8>>) -> Seq<Seq<u8>> {
    bufs.map_values(|b: Vec<u8>| b@)
}

/// What a vectored write gathers, from slice `i` on, into a buffer that holds
/// `acc`, while `n` bytes of budget are left: each slice is taken whole, and
/// the budget goes down by the smaller of the budget and what the buffer held
/// before that slice; gathering stops once the budget is used up.
pub open spec fn gathered(bufs: Seq<Seq<u8>>, i: int, acc: Seq<u8>, n: int) -> Seq<u8>
    decreases bufs.len() - i,
{
    if i < 0 || i >= bufs.len() || n <= 0 {
        acc
    } else {
        let used = if acc.len() < n { acc.len() as int } else { n };
        gathered(bufs, i + 1, acc + bufs[i], n - used)
    }
}

/// The bytes a vectored write of `bufs` takes into its empty buffer.
pub open spec fn spec_gather(bufs: Seq<Seq<u8>>) -> Seq<u8> {
    gathered(bufs, 0, Seq::<u8>::empty(), fill_len(total_len(bufs)) as int)
}

/// Sums grow with the number of slices summed.
pub proof fn lemma_prefix_total_monotone(bufs: Seq<Seq<u8>>, j: int, k: int)
    requires
        0 <= j <= k <= bufs.len(),
    ensures
        prefix_total(bufs, j) <= prefix_total(bufs, k),
    decreases k - j,
{
    if j < k {
        lemma_prefix_total_monotone(bufs, j, k - 1);
    }
}

/// The total length of the slices of a vectored write.
pub fn slices_total(bufs: &Vec<Vec<u8>>) -> (t: usize)
    requires
        total_len(slice_views(bufs@)) <= isize::MAX,
    ensures
        t == total_len(slice_views(bufs@)),
{
    let ghost vs = slice_views(bufs@);
    let mut t: usize = 0;
    let mut i: usize = 0;
    while i < bufs.len()
        invariant
            vs == slice_views(bufs@),
            0 <= i <= bufs.len(),
            t == prefix_total(vs, i as int),
            total_len(vs) <= isize::MAX,
        decreases bufs.len() - i,
    {
        proof {
            lemma_prefix_total_monotone(vs, i + 1, vs.len() as int);
            assert(vs[i as int] == bufs@[i as int]@);
        }
        t = t + bufs[i].len();
        i = i + 1;
    }
    t
}

/// Gathers the slices of a vectored write into the empty buffer, as
/// `spec_gather` says, and returns the number of bytes gathered.
pub fn gather_into(buf: &mut RingBuffer, bufs: &Vec<Vec<u8>>) -> (n: usize)
    requires
        old(buf)@.len() == 0,
        total_len(slice_views(bufs@)) <= isize::MAX,
    ensures
        final(buf)@ == spec_gather(slice_views(bufs@)),
        n == final(buf)@.len(),
{
    let ghost vs = slice_views(bufs@);
    let total = slices_total(bufs);
    let mut n: usize = if total < BUFFER_MAX_SIZE { total } else { BUFFER_MAX_SIZE };
    let mut i: usize = 0;
    while i < bufs.len() && n > 0
        invariant
            vs == slice_views(bufs@),
            0 <= i <= bufs.len(),
            gathered(vs, i as int, buf@, n as int) == spec_gather(vs),
            buf@.len() == prefix_total(vs, i as int),
            total_len(vs) <= isize::MAX,
        decreases bufs.len() - i,
    {
        proof {
            lemma_prefix_total_monotone(vs, i + 1, vs.len() as int);
            assert(vs[i as int] == bufs@[i as int]@);
        }
        let held = buf.len();
        let used = if held < n { held } else { n };
        buf.extend_from_slice(bufs[i].as_slice());
        n = n - used;
        i = i + 1;
    }
    buf.len()
}

/// Where a seek job lands when it first seeks to `base` and then makes the
/// seek `target`, for a seek relative to the cursor.
pub open spec fn relative_destination(base: u64, target: SeekTarget) -> int {
    match target {
        SeekTarget::Current(rel) => base + rel,
        _ => base as int,
    }
}

/// A relative seek goes from where the user is, not from where the cursor
/// ran ahead to: with `held` bytes buffered past the user's position (the
/// cursor being at `base`), a seek by `rel` lands at `base - held + rel`.
pub proof fn lemma_relative_seek_from_user_position(base: u64, rel: i64, held: Seq<u8>)
    requires
        compensation_fits(SeekTarget::Current(rel), held),
    ensures
        relative_destination(base, compensated(SeekTarget::Current(rel), held)) == base - held.len() + rel,
{
}

/// Buffered bytes only bear on a seek relative to the cursor: a seek to an
/// offset from the start or from the end of the file goes there unchanged,
/// whatever is buffered, and can always be made; a relative seek is moved back
/// by exactly the number of buffered bytes; with nothing buffered no seek is
/// moved.
pub proof fn lemma_only_relative_seek_is_moved(target: SeekTarget, held: Seq<u8>)
    ensures
        !(target is Current) ==> compensation_fits(target, held) && compensated(target, held) == target,
        held.len() == 0 ==> compensation_fits(target, held) && compensated(target, held) == target,
        target matches SeekTarget::Current(rel) ==> (compensation_fits(target, held)
            ==> compensated(target, held) is Current && compensated(target, held)->Current_0 == rel - held.len()),
{
}

/// Gathering only appends: what the buffer held stays at its front.
pub proof fn lemma_gathered_extends(bufs: Seq<Seq<u8>>, i: int, acc: Seq<u8>, n: int)
    ensures
        gathered(bufs, i, acc, n).len() >= acc.len(),
        gathered(bufs, i, acc, n).take(acc.len() as int) == acc,
    decreases bufs.len() - i,
{
    if i < 0 || i >= bufs.len() || n <= 0 {
        assert(acc.take(acc.len() as int) =~= acc);
    } else {
        let used = if acc.len() < n { acc.len() as int } else { n };
        lemma_gathered_extends(bufs, i + 1, acc + bufs[i], n - used);
        let r = gathered(bufs, i + 1, acc + bufs[i], n - used);
        assert(r.take(acc.len() as int) =~= (acc + bufs[i]).take((acc + bufs[i]).len() as int).take(acc.len() as int));
        assert((acc + bufs[i]).take(acc.len() as int) =~= acc);
    }
}

/// The slices `i..k` laid end to end.
pub open spec fn concat_range(bufs: Seq<Seq<u8>>, i: int, k: int) -> Seq<u8>
    decreases k - i,
{
    if i >= k {
        Seq::<u8>::empty()
    } else {
        bufs[i] + concat_range(bufs, i + 1, k)
    }
}

/// Appending the next slice extends a run of whole slices by one.
pub proof fn lemma_concat_range_push(bufs: Seq<Seq<u8>>, i: int, k: int)
    requires
        0 <= i <= k < bufs.len(),
    ensures
        concat_range(bufs, i, k + 1) == concat_range(bufs, i, k) + bufs[k],
    decreases k - i,
{
    if i == k {
        assert(concat_range(bufs, k + 1, k + 1) =~= Seq::<u8>::empty());
        assert(concat_range(bufs, i, k + 1) =~= bufs[k]);
        assert(concat_range(bufs, i, k) =~= Seq::<u8>::empty());
        assert(concat_range(bufs, i, k) + bufs[k] =~= bufs[k]);
    } else {
        lemma_concat_range_push(bufs, i + 1, k);
        assert(concat_range(bufs, i, k + 1) =~= concat_range(bufs, i, k) + bufs[k]);
    }
}

/// Gathering from slice `i` on, after the whole slices `0..i`, gives whole
/// slices `0..k` for some `k`.
pub proof fn lemma_gathered_whole_slices(bufs: Seq<Seq<u8>>, i: int, n: int)
    requires
        0 <= i <= bufs.len(),
    ensures
        exists|k: int| i <= k <= bufs.len() && gathered(bufs, i, concat_range(bufs, 0, i), n) == #[trigger] concat_range(bufs, 0, k),
    decreases bufs.len() - i,
{
    let acc = concat_range(bufs, 0, i);
    if i >= bufs.len() || n <= 0 {
        assert(gathered(bufs, i, acc, n) == concat_range(bufs, 0, i));
    } else {
        let used = if acc.len() < n { acc.len() as int } else { n };
        lemma_concat_range_push(bufs, 0, i);
        lemma_gathered_whole_slices(bufs, i + 1, n - used);
        assert(acc + bufs[i] == concat_range(bufs, 0, i + 1));
    }
}

/// A vectored write takes whole slices only, from the first on, and at
/// least the whole first slice once there is anything to write.
pub proof fn lemma_gather_takes_whole_slices(bufs: Seq<Seq<u8>>)
    ensures
        exists|k: int| 0 <= k <= bufs.len() && spec_gather(bufs) == #[trigger] concat_range(bufs, 0, k),
        bufs.len() > 0 && total_len(bufs) > 0 ==> spec_gather(bufs).take(bufs[0].len() as int) == bufs[0],
{
    assert(concat_range(bufs, 0, 0) =~= Seq::<u8>::empty());
    lemma_gathered_whole_slices(bufs, 0, fill_len(total_len(bufs)) as int);
    if bufs.len() > 0 && total_len(bufs) > 0 {
        let n = fill_len(total_len(bufs)) as int;
        assert(n > 0);
        assert(Seq::<u8>::empty() + bufs[0] =~= bufs[0]);
        assert(spec_gather(bufs) == gathered(bufs, 1, bufs[0], n));
        lemma_gathered_extends(bufs, 1, bufs[0], n);
    }
}

} // verus!
