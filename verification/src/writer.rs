//! The decisions of the writing accessor that works on its own file handle
//! and its cursor: its jobs seek relative to where the cursor is, and only
//! seeks move the position it reports.

use crate::poll_state::{PollView, PollWriteState};
use crate::ring_buf::{fill_len, spec_read_from, spec_write_into, RingBuffer};
use crate::task_state::{
    compensated, compensation_fits, gather_into, prepare_seek, slice_views,
    spec_gather, take_idle, total_len, AccessError, Operation, ReadIdle, ReadJob, SeekJob,
    SeekTarget, SetLenJob, Step, TaskState, WriteJob,
};
use vstd::prelude::*;

verus! {

/// The state once a finished job reported `op` and handed `buf` back, where
/// no result is returned for it: a failed write is kept to be reported, and a
/// seek's position becomes the reported position.
pub open spec fn settle<E>(v: PollView<E>, op: Operation<E>, buf: Seq<u8>) -> PollView<E> {
    let idle = PollView { held: Some(buf), ..v };
    match op {
        Operation::Seek(Ok(p)) => PollView { pos: p, ..idle },
        Operation::Write(Err(e)) => PollView { last_write_err: Some(e), ..idle },
        _ => idle,
    }
}

/// The state once a job is handed out.
pub open spec fn handed_out<E>(v: PollView<E>) -> PollView<E> {
    PollView { held: None, ..v }
}

/// Starts a seek: refused while a job runs; else the job seeks the cursor to
/// `target`, moved back over buffered bytes when it is relative. The buffered
/// bytes are dropped: reads go on from the target.
pub fn start_seek<E>(st: &mut PollWriteState<E>, target: SeekTarget) -> (r: Result<SeekJob, AccessError>)
    requires
        old(st)@.held matches Some(h) ==> compensation_fits(target, h),
    ensures
        match old(st)@.held {
            None => r == Err::<SeekJob, AccessError>(AccessError::Busy) && final(st)@ == old(st)@,
            Some(h) => r matches Ok(job) && {
                &&& job.base is None
                &&& job.target == compensated(target, h)
                &&& job.buf@ == Seq::<u8>::empty()
                &&& final(st)@ == handed_out(old(st)@)
            },
        },
{
    if st.inner.is_busy() {
        return Err(AccessError::Busy);
    }
    let buf = take_idle(&mut st.inner);
    let (target, buf) = prepare_seek(buf, target);
    Ok(SeekJob { base: None, target, buf })
}

/// `poll_complete` while idle: the reported position.
pub fn poll_complete_idle<E>(st: &PollWriteState<E>) -> (r: Option<u64>)
    ensures
        r == (if st@.held is Some { Some(st@.pos) } else { None::<u64> }),
{
    if st.inner.is_busy() {
        None
    } else {
        Some(st.pos)
    }
}

/// `poll_complete` once the job finished with `op`: a seek reports its
/// result; a failed write is kept; the loop polls on after anything else.
pub fn poll_complete_on<E>(st: &mut PollWriteState<E>, op: Operation<E>, buf: RingBuffer) -> (r: Step<Result<u64, E>>)
    requires
        old(st)@.held is None,
    ensures
        final(st)@ == settle(old(st)@, op, buf@),
        match op {
            Operation::Seek(res) => r == Step::Return(res),
            _ => r == Step::<Result<u64, E>>::Continue,
        },
{
    st.inner = TaskState::Idle(buf);
    match op {
        Operation::Seek(res) => {
            match res {
                Ok(p) => {
                    st.pos = p;
                    Step::Return(Ok(p))
                },
                Err(e) => Step::Return(Err(e)),
            }
        },
        Operation::Write(Err(e)) => {
            st.last_write_err = Some(e);
            Step::Continue
        },
        _ => Step::Continue,
    }
}

/// `poll_write` while idle: a failure kept from an earlier write is reported
/// first, and then no byte is taken; otherwise it drops buffered bytes (the
/// cursor ran ahead by their number), takes the first bytes of `src` up to the
/// buffer size, and hands them to a job that moves the cursor back and writes
/// them there. The write reports their number at once.
pub fn poll_write_idle<E>(st: &mut PollWriteState<E>, src: &[u8]) -> (r: Result<WriteJob, E>)
    requires
        old(st)@.held is Some,
    ensures
        match old(st)@.last_write_err {
            Some(e) => r matches Err(e2) && e2 == e
                && final(st)@ == (PollView { last_write_err: None, ..old(st)@ }),
            None => r matches Ok(job) && {
                &&& job.base is None
                &&& job.mv == -(old(st)@.held->0.len())
                &&& job.buf@ == spec_read_from(src@)
                &&& job.payload_len == fill_len(src@.len())
                &&& final(st)@ == handed_out(old(st)@)
            },
        },
{
    match st.take_write_err() {
        Some(e) => Err(e),
        None => {
            let mut buf = take_idle(&mut st.inner);
            let mv = buf.obsolete();
            buf.read_from(src);
            let payload_len = buf.len();
            Ok(WriteJob { base: None, mv: mv as i64, buf, payload_len })
        },
    }
}

/// `poll_write_vectored` while idle: like `poll_write_idle`, but gathers the
/// slices as `spec_gather` says.
pub fn poll_write_vectored_idle<E>(st: &mut PollWriteState<E>, bufs: &Vec<Vec<u8>>) -> (r: Result<WriteJob, E>)
    requires
        old(st)@.held is Some,
        total_len(slice_views(bufs@)) <= isize::MAX,
    ensures
        match old(st)@.last_write_err {
            Some(e) => r matches Err(e2) && e2 == e
                && final(st)@ == (PollView { last_write_err: None, ..old(st)@ }),
            None => r matches Ok(job) && {
                &&& job.base is None
                &&& job.mv == -(old(st)@.held->0.len())
                &&& job.buf@ == spec_gather(slice_views(bufs@))
                &&& job.payload_len == job.buf@.len()
                &&& final(st)@ == handed_out(old(st)@)
            },
        },
{
    match st.take_write_err() {
        Some(e) => Err(e),
        None => {
            let mut buf = take_idle(&mut st.inner);
            let mv = buf.obsolete();
            let payload_len = gather_into(&mut buf, bufs);
            Ok(WriteJob { base: None, mv: mv as i64, buf, payload_len })
        },
    }
}

/// `poll_write` (and `poll_write_vectored`) once the job finished with `op`:
/// a write failure is reported; the loop goes on after anything else.
pub fn poll_write_on<E>(st: &mut PollWriteState<E>, op: Operation<E>, buf: RingBuffer) -> (r: Step<Result<usize, E>>)
    requires
        old(st)@.held is None,
    ensures
        final(st)@ == (PollView { held: Some(buf@), ..old(st)@ }),
        match op {
            Operation::Write(Err(e)) => r == Step::Return(Err::<usize, E>(e)),
            _ => r == Step::<Result<usize, E>>::Continue,
        },
{
    st.inner = TaskState::Idle(buf);
    match op {
        Operation::Write(Err(e)) => Step::Return(Err(e)),
        _ => Step::Continue,
    }
}

/// `poll_read` while idle: buffered bytes (or no room at all) are handed out
/// at once; otherwise the empty buffer goes to a job that reads at the cursor.
pub fn poll_read_idle<E>(st: &mut PollWriteState<E>, remaining: usize) -> (r: ReadIdle)
    requires
        old(st)@.held is Some,
    ensures
        ({
            let h = old(st)@.held->0;
            if h.len() > 0 || remaining == 0 {
                r matches ReadIdle::Deliver(out) && (out@, final(st)@.held->0) == spec_write_into(h, remaining as nat)
                    && final(st)@ == (PollView { held: final(st)@.held, ..old(st)@ })
                    && final(st)@.held is Some
            } else {
                r matches ReadIdle::Start(job) && job.base is None && job.buf@.len() == 0
                    && final(st)@ == handed_out(old(st)@)
            }
        }),
{
    let mut buf = take_idle(&mut st.inner);
    if !buf.is_empty() || remaining == 0 {
        let out = buf.write_into(remaining);
        st.inner = TaskState::Idle(buf);
        ReadIdle::Deliver(out)
    } else {
        ReadIdle::Start(ReadJob { base: None, buf })
    }
}

/// `poll_read` once the job finished with `op`: a read hands out what fits
/// of what it read, or reports its failure; otherwise the job is settled and
/// the loop polls on.
pub fn poll_read_on<E>(st: &mut PollWriteState<E>, op: Operation<E>, buf: RingBuffer, remaining: usize)
    -> (r: Step<Result<Vec<u8>, E>>)
    requires
        old(st)@.held is None,
    ensures
        match op {
            Operation::Read(Ok(_)) => r matches Step::Return(Ok(out))
                && (out@, final(st)@.held->0) == spec_write_into(buf@, remaining as nat)
                && final(st)@ == (PollView { held: final(st)@.held, ..old(st)@ })
                && final(st)@.held is Some,
            Operation::Read(Err(e)) => r == Step::Return(Err::<Vec<u8>, E>(e))
                && final(st)@ == (PollView { held: Some(buf@), ..old(st)@ }),
            _ => r == Step::<Result<Vec<u8>, E>>::Continue && final(st)@ == settle(old(st)@, op, buf@),
        },
{
    let mut buf = buf;
    match op {
        Operation::Read(Ok(_)) => {
            let out = buf.write_into(remaining);
            st.inner = TaskState::Idle(buf);
            Step::Return(Ok(out))
        },
        Operation::Read(Err(e)) => {
            st.inner = TaskState::Idle(buf);
            Step::Return(Err(e))
        },
        Operation::Write(Err(e)) => {
            st.last_write_err = Some(e);
            st.inner = TaskState::Idle(buf);
            Step::Continue
        },
        Operation::Write(Ok(_)) => {
            st.inner = TaskState::Idle(buf);
            Step::Continue
        },
        Operation::Seek(res) => {
            st.inner = TaskState::Idle(buf);
            match res {
                Ok(p) => {
                    st.pos = p;
                },
                Err(_) => {},
            }
            Step::Continue
        },
    }
}

/// `set_len`, once the job in flight is complete: the job moves the cursor
/// back over the dropped buffered bytes and sets the length.
pub fn set_len_begin<E>(st: &mut PollWriteState<E>) -> (job: SetLenJob)
    requires
        old(st)@.held is Some,
    ensures
        job.base is None,
        job.mv == -(old(st)@.held->0.len()),
        job.buf@.len() == 0,
        final(st)@ == handed_out(old(st)@),
{
    let mut buf = take_idle(&mut st.inner);
    let mv = buf.obsolete();
    SetLenJob { base: None, mv: mv as i64, buf }
}

/// `set_len` once its job finished with `op`, which is the seek result of the
/// job: the accessor is idle again and the job's failure is reported; the
/// reported position does not change.
pub fn set_len_finish<E>(st: &mut PollWriteState<E>, op: Operation<E>, buf: RingBuffer) -> (r: Result<(), E>)
    requires
        old(st)@.held is None,
        op is Seek,
    ensures
        final(st)@ == (PollView { held: Some(buf@), ..old(st)@ }),
        match op {
            Operation::Seek(Ok(_)) => r == Ok::<(), E>(()),
            Operation::Seek(Err(e)) => r == Err::<(), E>(e),
            _ => false,
        },
{
    st.inner = TaskState::Idle(buf);
    match op {
        Operation::Seek(Ok(_)) => Ok(()),
        Operation::Seek(Err(e)) => Err(e),
        _ => vstd::pervasive::unreached(),
    }
}

/// What settling a finished job does to the cursor-based writer, whatever
/// it was before: it is idle again with the buffer the job handed back; a
/// failed write is kept as the failure the next write or flush reports, and
/// any other outcome keeps the failure kept before; only a seek that
/// succeeded moves the reported position, to where the seek landed.
pub proof fn lemma_settle_outcomes<E>(v: PollView<E>, op: Operation<E>, buf: Seq<u8>)
    ensures
        settle(v, op, buf).held == Some(buf),
        op matches Operation::Write(Err(e)) ==> settle(v, op, buf).last_write_err == Some(e),
        !(op matches Operation::Write(Err(_))) ==> settle(v, op, buf).last_write_err == v.last_write_err,
        op matches Operation::Seek(Ok(p)) ==> settle(v, op, buf).pos == p,
        !(op matches Operation::Seek(Ok(_))) ==> settle(v, op, buf).pos == v.pos,
{
}

/// Handing a job out changes nothing but that the buffer is gone with the
/// job: the position and the kept failure stay.
pub proof fn lemma_handing_out_keeps_state<E>(v: PollView<E>)
    ensures
        handed_out(v).held is None,
        handed_out(v).pos == v.pos,
        handed_out(v).last_write_err == v.last_write_err,
{
}

} // verus!
