//! The decisions of the read-write accessor. It keeps the user's position
//! itself, because each background job works on its own clone of the file,
//! whose cursor starts wherever an earlier job left it: every job first seeks
//! to that position. A poll loop is: while idle, ask the `*_idle` function
//! what to do; while busy, poll the job and hand what it reports to the
//! `*_on` function, which says whether to return or to poll on.

use crate::poll_state::{PollView, PollWriteState};
use crate::range_set::{first_written_run, is_run_end, record_span, span, OffsetSet};
use crate::ring_buf::{fill_len, spec_read_from, spec_write_into, RingBuffer, BUFFER_MAX_SIZE};
use crate::task_state::{
    compensated, compensation_fits, gather_into, prepare_seek, slice_views,
    spec_gather, take_idle, total_len, AccessError, Operation, ReadIdle, ReadJob, SeekJob,
    SeekTarget, SetLenJob, Step, TaskState, WriteJob,
};
use vstd::prelude::*;

verus! {

/// The state once a finished job reported `op` and handed `buf` back, where
/// no result is returned for it: the reported position becomes the user's
/// position, and a failed write is kept to be reported later.
pub open spec fn settle<E>(v: PollView<E>, op: Operation<E>, buf: Seq<u8>) -> PollView<E> {
    let idle = PollView { held: Some(buf), ..v };
    match op {
        Operation::Seek(Ok(p)) => PollView { pos: p, ..idle },
        Operation::Write(Ok(p)) => PollView { pos: p, ..idle },
        Operation::Read(Ok(p)) => PollView { pos: p, ..idle },
        Operation::Write(Err(e)) => PollView { last_write_err: Some(e), ..idle },
        _ => idle,
    }
}

/// The state once a job is handed out.
pub open spec fn handed_out<E>(v: PollView<E>) -> PollView<E> {
    PollView { held: None, ..v }
}

/// Starts a seek: refused while a job runs; else the job seeks to the user's
/// position and then to `target`, moved back over buffered bytes when it is
/// relative. The buffered bytes are dropped: reads go on from the target.
pub fn start_seek<E>(st: &mut PollWriteState<E>, target: SeekTarget) -> (r: Result<SeekJob, AccessError>)
    requires
        old(st)@.held matches Some(h) ==> compensation_fits(target, h),
    ensures
        match old(st)@.held {
            None => r == Err::<SeekJob, AccessError>(AccessError::Busy) && final(st)@ == old(st)@,
            Some(h) => r matches Ok(job) && {
                &&& job.base == Some(old(st)@.pos)
                &&& job.target == compensated(target, h)
                &&& job.buf@ == Seq::<u8>::empty()
                &&& final(st)@ == handed_out(old(st)@)
            },
        },
{
    if st.inner.is_busy() {
        return Err(AccessError::Busy);
    }
    let buf = take_idle(&mut st.inner);
    let (target, buf) = prepare_seek(buf, target);
    Ok(SeekJob { base: Some(st.pos), target, buf })
}

/// `poll_complete` while idle: the user's position.
pub fn poll_complete_idle<E>(st: &PollWriteState<E>) -> (r: Option<u64>)
    ensures
        r == (if st@.held is Some { Some(st@.pos) } else { None::<u64> }),
{
    if st.inner.is_busy() {
        None
    } else {
        Some(st.pos)
    }
}

/// `poll_complete` once the job finished with `op`: a seek reports its
/// result; any other job is settled and the loop polls on.
pub fn poll_complete_on<E>(st: &mut PollWriteState<E>, op: Operation<E>, buf: RingBuffer) -> (r: Step<Result<u64, E>>)
    requires
        old(st)@.held is None,
    ensures
        final(st)@ == settle(old(st)@, op, buf@),
        match op {
            Operation::Seek(res) => r == Step::Return(res),
            _ => r == Step::<Result<u64, E>>::Continue,
        },
{
    st.inner = TaskState::Idle(buf);
    match op {
        Operation::Seek(res) => {
            match res {
                Ok(p) => {
                    st.pos = p;
                    Step::Return(Ok(p))
                },
                Err(e) => Step::Return(Err(e)),
            }
        },
        Operation::Write(Ok(p)) => {
            st.pos = p;
            Step::Continue
        },
        Operation::Read(Ok(p)) => {
            st.pos = p;
            Step::Continue
        },
        Operation::Write(Err(e)) => {
            st.last_write_err = Some(e);
            Step::Continue
        },
        Operation::Read(Err(_)) => Step::Continue,
    }
}

/// `poll_write` while idle: a failure kept from an earlier write is reported
/// first, and then no byte is taken; otherwise it drops buffered bytes (the
/// file cursor ran ahead of the user by their number), takes the first bytes
/// of `src` up to the buffer size, and hands them to a job that writes them at
/// the user's position. The write reports their number at once.
pub fn poll_write_idle<E>(st: &mut PollWriteState<E>, src: &[u8]) -> (r: Result<WriteJob, E>)
    requires
        old(st)@.held is Some,
    ensures
        match old(st)@.last_write_err {
            Some(e) => r matches Err(e2) && e2 == e
                && final(st)@ == (PollView { last_write_err: None, ..old(st)@ }),
            None => r matches Ok(job) && {
                &&& job.base == Some(old(st)@.pos)
                &&& job.mv == -(old(st)@.held->0.len())
                &&& job.buf@ == spec_read_from(src@)
                &&& job.payload_len == fill_len(src@.len())
                &&& final(st)@ == handed_out(old(st)@)
            },
        },
{
    match st.take_write_err() {
        Some(e) => Err(e),
        None => {
            let mut buf = take_idle(&mut st.inner);
            let mv = buf.obsolete();
            buf.read_from(src);
            let payload_len = buf.len();
            Ok(WriteJob { base: Some(st.pos), mv: mv as i64, buf, payload_len })
        },
    }
}

/// `poll_write_vectored` while idle: like `poll_write_idle`, but gathers the
/// slices as `spec_gather` says.
pub fn poll_write_vectored_idle<E>(st: &mut PollWriteState<E>, bufs: &Vec<Vec<u8>>) -> (r: Result<WriteJob, E>)
    requires
        old(st)@.held is Some,
        total_len(slice_views(bufs@)) <= isize::MAX,
    ensures
        match old(st)@.last_write_err {
            Some(e) => r matches Err(e2) && e2 == e
                && final(st)@ == (PollView { last_write_err: None, ..old(st)@ }),
            None => r matches Ok(job) && {
                &&& job.base == Some(old(st)@.pos)
                &&& job.mv == -(old(st)@.held->0.len())
                &&& job.buf@ == spec_gather(slice_views(bufs@))
                &&& job.payload_len == job.buf@.len()
                &&& final(st)@ == handed_out(old(st)@)
            },
        },
{
    match st.take_write_err() {
        Some(e) => Err(e),
        None => {
            let mut buf = take_idle(&mut st.inner);
            let mv = buf.obsolete();
            let payload_len = gather_into(&mut buf, bufs);
            Ok(WriteJob { base: Some(st.pos), mv: mv as i64, buf, payload_len })
        },
    }
}

/// `poll_write` (and `poll_write_vectored`) once the job finished with `op`:
/// a write failure is reported; a successful write moves the user's position
/// to its end; the loop then goes on.
pub fn poll_write_on<E>(st: &mut PollWriteState<E>, op: Operation<E>, buf: RingBuffer) -> (r: Step<Result<usize, E>>)
    requires
        old(st)@.held is None,
    ensures
        match op {
            Operation::Write(Ok(p)) => r == Step::<Result<usize, E>>::Continue
                && final(st)@ == (PollView { held: Some(buf@), pos: p, ..old(st)@ }),
            Operation::Write(Err(e)) => r == Step::Return(Err::<usize, E>(e))
                && final(st)@ == (PollView { held: Some(buf@), ..old(st)@ }),
            _ => r == Step::<Result<usize, E>>::Continue
                && final(st)@ == (PollView { held: Some(buf@), ..old(st)@ }),
        },
{
    st.inner = TaskState::Idle(buf);
    match op {
        Operation::Write(Ok(p)) => {
            st.pos = p;
            Step::Continue
        },
        Operation::Write(Err(e)) => Step::Return(Err(e)),
        _ => Step::Continue,
    }
}

/// What a finished write job records: the `len` bytes written from `start`
/// on are written, and the job reports the position after them.
pub fn write_job_done(writed: &mut OffsetSet, start: u64, len: usize) -> (end_pos: u64)
    requires
        start + len <= u64::MAX,
    ensures
        end_pos == start + len,
        final(writed)@ == old(writed)@.union(span(start as int, start + len - 1)),
{
    record_span(writed, start, len);
    start + len as u64
}

/// `poll_read` while idle: buffered bytes (or no room at all) are handed out
/// at once; otherwise the empty buffer goes to a job that reads at the user's
/// position.
pub fn poll_read_idle<E>(st: &mut PollWriteState<E>, remaining: usize) -> (r: ReadIdle)
    requires
        old(st)@.held is Some,
    ensures
        ({
            let h = old(st)@.held->0;
            if h.len() > 0 || remaining == 0 {
                r matches ReadIdle::Deliver(out) && (out@, final(st)@.held->0) == spec_write_into(h, remaining as nat)
                    && final(st)@ == (PollView { held: final(st)@.held, ..old(st)@ })
                    && final(st)@.held is Some
            } else {
                r matches ReadIdle::Start(job) && job.base == Some(old(st)@.pos) && job.buf@.len() == 0
                    && final(st)@ == handed_out(old(st)@)
            }
        }),
{
    let mut buf = take_idle(&mut st.inner);
    if !buf.is_empty() || remaining == 0 {
        let out = buf.write_into(remaining);
        st.inner = TaskState::Idle(buf);
        ReadIdle::Deliver(out)
    } else {
        ReadIdle::Start(ReadJob { base: Some(st.pos), buf })
    }
}

/// What a finished read job reports: the position after the bytes it read
/// from `at`, or its failure.
pub fn read_job_done<E>(buf: &mut RingBuffer, at: u64, outcome: Result<Vec<u8>, E>) -> (op: Operation<E>)
    requires
        old(buf)@.len() == 0,
        outcome matches Ok(bytes) ==> bytes@.len() <= BUFFER_MAX_SIZE && at + bytes@.len() <= u64::MAX,
    ensures
        match outcome {
            Ok(bytes) => op == Operation::Read(Ok::<u64, E>((at + bytes@.len()) as u64)) && final(buf)@ == bytes@,
            Err(e) => op == Operation::Read(Err::<u64, E>(e)) && final(buf)@ == Seq::<u8>::empty(),
        },
{
    match buf.read_file(outcome) {
        Ok(n) => Operation::Read(Ok(at + n as u64)),
        Err(e) => Operation::Read(Err(e)),
    }
}

/// `poll_read` once the job finished with `op`: a read hands out what fits
/// of what it read and moves the user's position to where it stopped, or
/// reports its failure; any other job is settled and the loop polls on.
pub fn poll_read_on<E>(st: &mut PollWriteState<E>, op: Operation<E>, buf: RingBuffer, remaining: usize)
    -> (r: Step<Result<Vec<u8>, E>>)
    requires
        old(st)@.held is None,
    ensures
        match op {
            Operation::Read(Ok(p)) => r matches Step::Return(Ok(out))
                && (out@, final(st)@.held->0) == spec_write_into(buf@, remaining as nat)
                && final(st)@ == (PollView { held: final(st)@.held, pos: p, ..old(st)@ })
                && final(st)@.held is Some,
            Operation::Read(Err(e)) => r == Step::Return(Err::<Vec<u8>, E>(e))
                && final(st)@ == (PollView { held: Some(buf@), ..old(st)@ }),
            _ => r == Step::<Result<Vec<u8>, E>>::Continue && final(st)@ == settle(old(st)@, op, buf@),
        },
{
    let mut buf = buf;
    match op {
        Operation::Read(Ok(p)) => {
            let out = buf.write_into(remaining);
            st.pos = p;
            st.inner = TaskState::Idle(buf);
            Step::Return(Ok(out))
        },
        Operation::Read(Err(e)) => {
            st.inner = TaskState::Idle(buf);
            Step::Return(Err(e))
        },
        Operation::Write(Ok(p)) => {
            st.pos = p;
            st.inner = TaskState::Idle(buf);
            Step::Continue
        },
        Operation::Write(Err(e)) => {
            st.last_write_err = Some(e);
            st.inner = TaskState::Idle(buf);
            Step::Continue
        },
        Operation::Seek(res) => {
            st.inner = TaskState::Idle(buf);
            match res {
                Ok(p) => {
                    st.pos = p;
                },
                Err(_) => {},
            }
            Step::Continue
        },
    }
}

/// `set_len`, once the job in flight is complete: the job seeks to the user's
/// position, moves back over the dropped buffered bytes, and sets the length.
pub fn set_len_begin<E>(st: &mut PollWriteState<E>) -> (job: SetLenJob)
    requires
        old(st)@.held is Some,
    ensures
        job.base == Some(old(st)@.pos),
        job.mv == -(old(st)@.held->0.len()),
        job.buf@.len() == 0,
        final(st)@ == handed_out(old(st)@),
{
    let mut buf = take_idle(&mut st.inner);
    let mv = buf.obsolete();
    SetLenJob { base: Some(st.pos), mv: mv as i64, buf }
}

/// `set_len` once its job finished with `op`, which is the seek result of
/// the job: the user's position becomes the one the job reports, so it is
/// where it was before the call.
pub fn set_len_finish<E>(st: &mut PollWriteState<E>, op: Operation<E>, buf: RingBuffer) -> (r: Result<(), E>)
    requires
        old(st)@.held is None,
        op is Seek,
    ensures
        match op {
            Operation::Seek(Ok(p)) => r == Ok::<(), E>(())
                && final(st)@ == (PollView { held: Some(buf@), pos: p, ..old(st)@ }),
            Operation::Seek(Err(e)) => r == Err::<(), E>(e)
                && final(st)@ == (PollView { held: Some(buf@), ..old(st)@ }),
            _ => false,
        },
{
    st.inner = TaskState::Idle(buf);
    match op {
        Operation::Seek(Ok(p)) => {
            st.pos = p;
            Ok(())
        },
        Operation::Seek(Err(e)) => Err(e),
        _ => vstd::pervasive::unreached(),
    }
}

/// Where the user is in the file: the position less the bytes buffered ahead
/// of it (while idle).
pub open spec fn user_position<E>(v: PollView<E>) -> int {
    match v.held {
        Some(h) => v.pos - h.len(),
        None => v.pos as int,
    }
}

/// Where the user is in the file, while idle: synchronous reads and writes
/// count their bytes from here.
pub fn user_position_of<E>(st: &PollWriteState<E>) -> (p: u64)
    requires
        st@.held matches Some(h) && h.len() <= st@.pos,
    ensures
        p == user_position(st@),
{
    match &st.inner {
        TaskState::Idle(b) => st.pos - b.len() as u64,
        TaskState::Busy => st.pos,
    }
}

/// The result of a synchronous read of `n` bytes counted from `start`: the
/// length of the written run those bytes start with, or `UnexpectedEof` when
/// they do not start with a written byte.
pub fn sync_read_result(writed: &OffsetSet, start: u64, n: usize) -> (r: Result<usize, AccessError>)
    requires
        start + n <= u64::MAX,
    ensures
        r is Ok <==> (n > 0 && writed@.contains(start)),
        r matches Err(e) ==> e == AccessError::UnexpectedEof,
        r matches Ok(k) ==> 1 <= k <= n && is_run_end(writed@, start, (start + n - 1) as u64, (start + k - 1) as u64),
{
    if n == 0 {
        return Err(AccessError::UnexpectedEof);
    }
    let end = start + (n - 1) as u64;
    match first_written_run(writed, start, end) {
        Some(hi) => Ok((hi - start + 1) as usize),
        None => Err(AccessError::UnexpectedEof),
    }
}

/// The end of reading to the end, once the `n` bytes were read (the accessor
/// idle, the user's position just past them): counted from where they start,
/// the length of the written run they start with, and the user's position
/// moves one past the end of that run, with nothing buffered, so reading goes on
/// there; when they do not start with a written byte it is `UnexpectedEof`,
/// and nothing changes.
pub fn sync_read_to_end_settle<E>(st: &mut PollWriteState<E>, writed: &OffsetSet, n: usize) -> (r: Result<usize, AccessError>)
    requires
        old(st)@.held matches Some(h) && h.len() + n <= old(st)@.pos,
    ensures
        ({
            let start = (user_position(old(st)@) - n) as u64;
            &&& r is Ok <==> (n > 0 && writed@.contains(start))
            &&& match r {
                Ok(k) => 1 <= k <= n && is_run_end(writed@, start, (start + n - 1) as u64, (start + k - 1) as u64)
                    && final(st)@ == (PollView { held: Some(Seq::<u8>::empty()), pos: (start + k) as u64, ..old(st)@ }),
                Err(e) => e == AccessError::UnexpectedEof && final(st)@ == old(st)@,
            }
        }),
{
    let start = user_position_of(st) - n as u64;
    let r = sync_read_result(writed, start, n);
    match r {
        Ok(k) => {
            let mut buf = take_idle(&mut st.inner);
            buf.clear();
            st.inner = TaskState::Idle(buf);
            st.pos = start + k as u64;
            Ok(k)
        },
        Err(e) => Err(e),
    }
}

/// What a write records reads back in full: counting from the first byte a
/// write of `n` bytes recorded, a synchronous read of `n` bytes finds them all
/// written, so `sync_read_result` is `Ok(n)`.
pub proof fn lemma_write_reads_back(writed: Set<u64>, start: u64, n: int, k: int)
    requires
        1 <= n,
        start + n <= u64::MAX,
        1 <= k <= n,
        is_run_end(writed.union(span(start as int, start + n - 1)), start, (start + n - 1) as u64, (start + k - 1) as u64),
    ensures
        writed.union(span(start as int, start + n - 1)).contains(start),
        k == n,
{
    let w = writed.union(span(start as int, start + n - 1));
    assert(span(start as int, start + n - 1).contains(start));
    if k < n {
        assert(span(start as int, start + n - 1).contains((start + k) as u64));
        assert(w.contains((start + k) as u64));
    }
}

/// A write lands where the user is: its job seeks to the position and moves
/// back over the bytes buffered ahead, which is where synchronous reads and
/// writes count from (`user_position_of`). So what `write_job_done` records
/// from the landing offset is what `sync_read_result` counts from the user's
/// position (`lemma_write_reads_back`).
pub proof fn lemma_write_lands_at_user_position<E>(v: PollView<E>)
    requires
        v.held matches Some(h) && h.len() <= v.pos,
    ensures
        v.pos + (-(v.held->0.len())) == user_position(v),
{
}

/// A failed write is not lost: the job's failure is kept when the job is
/// settled by another poll, with the accessor idle, so that the next write
/// (`poll_write_idle`, which then takes no byte) or flush reports it and keeps
/// none after.
pub proof fn lemma_write_failure_reported_once<E>(v: PollView<E>, e: E, buf: Seq<u8>)
    ensures
        settle(v, Operation::Write(Err::<u64, E>(e)), buf).last_write_err == Some(e),
        settle(v, Operation::Write(Err::<u64, E>(e)), buf).held is Some,
{
}

/// Whatever a finished job reported, settling it leaves the accessor idle,
/// holding the buffer the job handed back.
pub proof fn lemma_settle_idles<E>(v: PollView<E>, op: Operation<E>, buf: Seq<u8>)
    ensures
        settle(v, op, buf).held == Some(buf),
{
}

/// After a seek, reads go on from its target: once a seek job that reported
/// `t` is settled with the emptied buffer it was handed, nothing is buffered,
/// the user is at `t`, and the next read starts a job there.
pub proof fn lemma_seek_then_read_at_target<E>(v: PollView<E>, t: u64)
    ensures
        settle(v, Operation::Seek(Ok::<u64, E>(t)), Seq::<u8>::empty()).held == Some(Seq::<u8>::empty()),
        settle(v, Operation::Seek(Ok::<u64, E>(t)), Seq::<u8>::empty()).pos == t,
        user_position(settle(v, Operation::Seek(Ok::<u64, E>(t)), Seq::<u8>::empty())) == t,
{
}

/// `set_len` keeps the user's position: its job seeks to the position less
/// the buffered bytes, which is where the user is; once the job reports that
/// place, the user is still there, with nothing buffered.
pub proof fn lemma_set_len_keeps_position<E>(v: PollView<E>, buf: Seq<u8>)
    requires
        v.held matches Some(h) && h.len() <= v.pos,
        buf.len() == 0,
    ensures
        ({
            let p = (v.pos - v.held->0.len()) as u64;
            let after = PollView { held: Some(buf), pos: p, ..handed_out(v) };
            user_position(after) == user_position(v)
        }),
{
}

/// What settling a finished job does to the read-write accessor, whatever
/// it was before: it is idle again with the buffer the job handed back; a job
/// that succeeded puts the user's position where it reports (after a write,
/// the end of what it wrote; after a read, where the file's cursor stopped;
/// after a seek, where it landed), even behind where the position was; a job
/// that failed leaves the position; a failed write is kept as the failure the
/// next write or flush reports, and any other outcome keeps the one kept
/// before.
pub proof fn lemma_settle_outcomes<E>(v: PollView<E>, op: Operation<E>, buf: Seq<u8>)
    ensures
        settle(v, op, buf).held == Some(buf),
        op matches Operation::Write(Ok(p)) ==> settle(v, op, buf).pos == p,
        op matches Operation::Read(Ok(p)) ==> settle(v, op, buf).pos == p,
        op matches Operation::Seek(Ok(p)) ==> settle(v, op, buf).pos == p,
        op matches Operation::Write(Err(_)) ==> settle(v, op, buf).pos == v.pos,
        op matches Operation::Read(Err(_)) ==> settle(v, op, buf).pos == v.pos,
        op matches Operation::Seek(Err(_)) ==> settle(v, op, buf).pos == v.pos,
        op matches Operation::Write(Err(e)) ==> settle(v, op, buf).last_write_err == Some(e),
        !(op matches Operation::Write(Err(_))) ==> settle(v, op, buf).last_write_err == v.last_write_err,
{
}

/// Handing a job out changes nothing but that the buffer is gone with the
/// job: the position and the kept failure stay.
pub proof fn lemma_handing_out_keeps_state<E>(v: PollView<E>)
    ensures
        handed_out(v).held is None,
        handed_out(v).pos == v.pos,
        handed_out(v).last_write_err == v.last_write_err,
{
}

} // verus!
