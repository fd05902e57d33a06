//! The decisions of the reading accessor that shares a file with a writer.
//! Like the read-write accessor it keeps the user's position itself and has
//! every job seek there first; it never writes. Its synchronous reads only
//! count the bytes the writer has recorded as written.

use crate::poll_state::{PollReadState, ReadView};
use crate::range_set::{first_written_run, is_run_end, OffsetSet};
use crate::ring_buf::{spec_write_into, RingBuffer};
use crate::task_state::{
    compensated, compensation_fits, prepare_seek, take_idle, AccessError,
    Operation, ReadIdle, ReadJob, SeekJob, SeekTarget, Step, TaskState,
};
use vstd::prelude::*;

verus! {

/// The state once a finished job reported `op` and handed `buf` back, where
/// no result is returned for it: a reported position becomes the user's.
pub open spec fn settle<E>(v: ReadView, op: Operation<E>, buf: Seq<u8>) -> ReadView {
    let idle = ReadView { held: Some(buf), ..v };
    match op {
        Operation::Seek(Ok(p)) => ReadView { pos: p, ..idle },
        Operation::Read(Ok(p)) => ReadView { pos: p, ..idle },
        _ => idle,
    }
}

/// Starts a seek: refused while a job runs; else the job seeks to the user's
/// position and then to `target`, moved back over buffered bytes when it is
/// relative. The buffered bytes are dropped: reads go on from the target.
pub fn start_seek(st: &mut PollReadState, target: SeekTarget) -> (r: Result<SeekJob, AccessError>)
    requires
        old(st)@.held matches Some(h) ==> compensation_fits(target, h),
    ensures
        match old(st)@.held {
            None => r == Err::<SeekJob, AccessError>(AccessError::Busy) && final(st)@ == old(st)@,
            Some(h) => r matches Ok(job) && {
                &&& job.base == Some(old(st)@.pos)
                &&& job.target == compensated(target, h)
                &&& job.buf@ == Seq::<u8>::empty()
                &&& final(st)@ == (ReadView { held: None, ..old(st)@ })
            },
        },
{
    if st.inner.is_busy() {
        return Err(AccessError::Busy);
    }
    let buf = take_idle(&mut st.inner);
    let (target, buf) = prepare_seek(buf, target);
    Ok(SeekJob { base: Some(st.pos), target, buf })
}

/// `poll_complete` while idle: the user's position.
pub fn poll_complete_idle(st: &PollReadState) -> (r: Option<u64>)
    ensures
        r == (if st@.held is Some { Some(st@.pos) } else { None::<u64> }),
{
    if st.inner.is_busy() {
        None
    } else {
        Some(st.pos)
    }
}

/// `poll_complete` once the job finished with `op`: a seek reports its
/// result; a read is settled and the loop polls on. A reader starts no write.
pub fn poll_complete_on<E>(st: &mut PollReadState, op: Operation<E>, buf: RingBuffer) -> (r: Step<Result<u64, E>>)
    requires
        old(st)@.held is None,
        !(op is Write),
    ensures
        final(st)@ == settle(old(st)@, op, buf@),
        match op {
            Operation::Seek(res) => r == Step::Return(res),
            _ => r == Step::<Result<u64, E>>::Continue,
        },
{
    st.inner = TaskState::Idle(buf);
    match op {
        Operation::Seek(res) => {
            match res {
                Ok(p) => {
                    st.pos = p;
                    Step::Return(Ok(p))
                },
                Err(e) => Step::Return(Err(e)),
            }
        },
        Operation::Read(Ok(p)) => {
            st.pos = p;
            Step::Continue
        },
        Operation::Read(Err(_)) => Step::Continue,
        Operation::Write(_) => vstd::pervasive::unreached(),
    }
}

/// `poll_read` while idle: buffered bytes (or no room at all) are handed out
/// at once; otherwise the empty buffer goes to a job that reads at the user's
/// position.
pub fn poll_read_idle(st: &mut PollReadState, remaining: usize) -> (r: ReadIdle)
    requires
        old(st)@.held is Some,
    ensures
        ({
            let h = old(st)@.held->0;
            if h.len() > 0 || remaining == 0 {
                r matches ReadIdle::Deliver(out) && (out@, final(st)@.held->0) == spec_write_into(h, remaining as nat)
                    && final(st)@.pos == old(st)@.pos
                    && final(st)@.held is Some
            } else {
                r matches ReadIdle::Start(job) && job.base == Some(old(st)@.pos) && job.buf@.len() == 0
                    && final(st)@ == (ReadView { held: None, ..old(st)@ })
            }
        }),
{
    let mut buf = take_idle(&mut st.inner);
    if !buf.is_empty() || remaining == 0 {
        let out = buf.write_into(remaining);
        st.inner = TaskState::Idle(buf);
        ReadIdle::Deliver(out)
    } else {
        ReadIdle::Start(ReadJob { base: Some(st.pos), buf })
    }
}

/// `poll_read` once the job finished with `op`: a read hands out what fits
/// of what it read and moves the user's position to where it stopped, or
/// reports its failure; a seek is settled and the loop polls on.
pub fn poll_read_on<E>(st: &mut PollReadState, op: Operation<E>, buf: RingBuffer, remaining: usize)
    -> (r: Step<Result<Vec<u8>, E>>)
    requires
        old(st)@.held is None,
        !(op is Write),
    ensures
        match op {
            Operation::Read(Ok(p)) => r matches Step::Return(Ok(out))
                && (out@, final(st)@.held->0) == spec_write_into(buf@, remaining as nat)
                && final(st)@.pos == p
                && final(st)@.held is Some,
            Operation::Read(Err(e)) => r == Step::Return(Err::<Vec<u8>, E>(e))
                && final(st)@ == (ReadView { held: Some(buf@), ..old(st)@ }),
            _ => r == Step::<Result<Vec<u8>, E>>::Continue && final(st)@ == settle(old(st)@, op, buf@),
        },
{
    let mut buf = buf;
    match op {
        Operation::Read(Ok(p)) => {
            let out = buf.write_into(remaining);
            st.pos = p;
            st.inner = TaskState::Idle(buf);
            Step::Return(Ok(out))
        },
        Operation::Read(Err(e)) => {
            st.inner = TaskState::Idle(buf);
            Step::Return(Err(e))
        },
        Operation::Seek(res) => {
            st.inner = TaskState::Idle(buf);
            match res {
                Ok(p) => {
                    st.pos = p;
                },
                Err(_) => {},
            }
            Step::Continue
        },
        Operation::Write(_) => vstd::pervasive::unreached(),
    }
}

/// Where the reader's user is in the file: the position less the bytes
/// buffered ahead of it (while idle).
pub open spec fn reader_position(v: ReadView) -> int {
    match v.held {
        Some(h) => v.pos - h.len(),
        None => v.pos as int,
    }
}

/// The result of a synchronous read of `n` bytes, once they were read:
/// counting from one past the position the read reached, the length of the
/// written run they start with, and the position moves one past the end of that
/// run; when they do not start with a written byte it is `UnexpectedEof`,
/// and the position stays.
pub fn sync_read_settle(st: &mut PollReadState, writed: &OffsetSet, n: usize) -> (r: Result<usize, AccessError>)
    requires
        old(st)@.pos + 1 + n <= u64::MAX,
    ensures
        ({
            let start = (old(st)@.pos + 1) as u64;
            let end = (start + n - 1) as u64;
            &&& r is Ok <==> (n > 0 && writed@.contains(start))
            &&& final(st)@.held == old(st)@.held
            &&& match r {
                Ok(k) => 1 <= k <= n && is_run_end(writed@, start, end, (start + k - 1) as u64)
                    && final(st)@.pos == start + k,
                Err(e) => e == AccessError::UnexpectedEof && final(st)@.pos == old(st)@.pos,
            }
        }),
{
    let start = st.pos + 1;
    let end = start + n as u64 - 1;
    match first_written_run(writed, start, end) {
        Some(hi) => {
            st.pos = hi + 1;
            Ok((hi - start + 1) as usize)
        },
        None => {
            st.pos = start - 1;
            Err(AccessError::UnexpectedEof)
        },
    }
}

/// The result of reading to the end, once the `n` bytes were read: they end
/// just before the position the read reached; the length of the written run
/// they start with, and the position moves one past the end of that run; when they
/// do not start with a written byte it is `UnexpectedEof`, and the position
/// goes to one before where they start.
pub fn sync_read_to_end_settle(st: &mut PollReadState, writed: &OffsetSet, n: usize) -> (r: Result<usize, AccessError>)
    requires
        n < old(st)@.pos,
    ensures
        ({
            let start = (old(st)@.pos - n) as u64;
            let end = (old(st)@.pos - 1) as u64;
            &&& r is Ok <==> (n > 0 && writed@.contains(start))
            &&& final(st)@.held == old(st)@.held
            &&& match r {
                Ok(k) => 1 <= k <= n && is_run_end(writed@, start, end, (start + k - 1) as u64)
                    && final(st)@.pos == start + k,
                Err(e) => e == AccessError::UnexpectedEof && final(st)@.pos == start - 1,
            }
        }),
{
    let end = st.pos - 1;
    let start = end - n as u64 + 1;
    match first_written_run(writed, start, end) {
        Some(hi) => {
            st.pos = hi + 1;
            Ok((hi - start + 1) as usize)
        },
        None => {
            st.pos = start - 1;
            Err(AccessError::UnexpectedEof)
        },
    }
}

/// After a seek, reads go on from its target: once a seek job that reported
/// `t` is settled with the emptied buffer it was handed, nothing is buffered
/// and the reader is at `t`.
pub proof fn lemma_seek_then_read_at_target<E>(v: ReadView, t: u64)
    ensures
        settle(v, Operation::Seek(Ok::<u64, E>(t)), Seq::<u8>::empty()).held == Some(Seq::<u8>::empty()),
        reader_position(settle(v, Operation::Seek(Ok::<u64, E>(t)), Seq::<u8>::empty())) == t,
{
}

/// What settling a finished job does to the reader, whatever it was before:
/// it is idle again with the buffer the job handed back; a read or seek that
/// succeeded puts the position where it reports, even behind where it was;
/// anything else leaves the position.
pub proof fn lemma_settle_outcomes<E>(v: ReadView, op: Operation<E>, buf: Seq<u8>)
    ensures
        settle(v, op, buf).held == Some(buf),
        op matches Operation::Read(Ok(p)) ==> settle(v, op, buf).pos == p,
        op matches Operation::Seek(Ok(p)) ==> settle(v, op, buf).pos == p,
        !(op matches Operation::Read(Ok(_))) && !(op matches Operation::Seek(Ok(_))) ==> settle(v, op, buf).pos == v.pos,
{
}

/// Where the reader's user is: while idle, the position less the bytes
/// buffered ahead of it, so a delivery of `k` bytes moves the user on by `k`
/// and leaves the position where it is.
pub proof fn lemma_reader_position_counts_buffered(v: ReadView, h: Seq<u8>, k: int)
    requires
        v.held == Some(h),
        0 <= k <= h.len(),
    ensures
        reader_position(v) == v.pos - h.len(),
        reader_position(ReadView { held: Some(h.skip(k)), ..v }) == reader_position(v) + k,
{
}

} // verus!
