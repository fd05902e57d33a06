//! The state an accessor keeps between polls, and the flush / complete-inflight
//! decisions every accessor shares.

use crate::ring_buf::RingBuffer;
use crate::task_state::{Operation, TaskState};
use vstd::prelude::*;

verus! {

/// The state of a writing accessor as the contracts see it: the buffered
/// bytes while idle (`None` while a job runs), the write failure not yet
/// reported, and the user's position in the file.
pub struct PollView<E> {
    pub held: Option<Seq<u8>>,
    pub last_write_err: Option<E>,
    pub pos: u64,
}

/// The state of a writing accessor between polls.
pub struct PollWriteState<E> {
    pub inner: TaskState,
    pub last_write_err: Option<E>,
    /// Always the position of the next byte to handle.
    pub pos: u64,
}

impl<E> View for PollWriteState<E> {
    type V = PollView<E>;

    open spec fn view(&self) -> PollView<E> {
        PollView { held: self.inner.held(), last_write_err: self.last_write_err, pos: self.pos }
    }
}

/// How a flush starts: report a failure kept from an earlier write, find
/// nothing to wait for, or wait for the running job.
pub enum FlushStart<E> {
    Failed(E),
    Done,
    Wait,
}

/// The result a flush reports once the running job finished with `op`.
pub open spec fn flush_result<E>(op: Operation<E>) -> Result<(), E> {
    match op {
        Operation::Write(Err(e)) => Err(e),
        _ => Ok(()),
    }
}

/// The state once a flush saw the job finish with `op` and take `buf` back:
/// idle, and at the position the job reports, since the position always
/// points at the next byte to handle.
pub open spec fn flush_settled<E>(v: PollView<E>, op: Operation<E>, buf: Seq<u8>) -> PollView<E> {
    let idle = PollView { held: Some(buf), ..v };
    match op {
        Operation::Read(Ok(p)) => PollView { pos: p, ..idle },
        Operation::Write(Ok(p)) => PollView { pos: p, ..idle },
        Operation::Seek(Ok(p)) => PollView { pos: p, ..idle },
        _ => idle,
    }
}

/// The failure a finished job leaves to be reported later, over `kept`.
pub open spec fn kept_failure<E>(kept: Option<E>, op: Operation<E>) -> Option<E> {
    match op {
        Operation::Write(Err(e)) => Some(e),
        _ => kept,
    }
}

impl<E> PollWriteState<E> {
    /// Idle, with an empty buffer, no failure kept, at position 0.
    pub fn new() -> (s: Self)
        ensures
            s@ == (PollView::<E> { held: Some(Seq::<u8>::empty()), last_write_err: None, pos: 0 }),
    {
        PollWriteState { inner: TaskState::new(), last_write_err: None, pos: 0 }
    }

    /// Takes the failure kept from an earlier write, leaving none.
    pub fn take_write_err(&mut self) -> (e: Option<E>)
        ensures
            e == old(self)@.last_write_err,
            final(self)@ == (PollView { last_write_err: None, ..old(self)@ }),
    {
        let mut e = None;
        std::mem::swap(&mut e, &mut self.last_write_err);
        e
    }

    /// The start of `poll_flush`: a kept failure is taken and reported first;
    /// else an idle accessor is flushed, and a busy one waits for its job.
    pub fn poll_flush_begin(&mut self) -> (r: FlushStart<E>)
        ensures
            match old(self)@.last_write_err {
                Some(e) => r == FlushStart::Failed(e)
                    && final(self)@ == (PollView { last_write_err: None, ..old(self)@ }),
                None => final(self)@ == old(self)@ && (if old(self)@.held is Some {
                    r == FlushStart::<E>::Done
                } else {
                    r == FlushStart::<E>::Wait
                }),
            },
    {
        match self.take_write_err() {
            Some(e) => FlushStart::Failed(e),
            None => if self.inner.is_busy() {
                FlushStart::Wait
            } else {
                FlushStart::Done
            },
        }
    }

    /// The end of `poll_flush` once the job finished with `op` and handed `buf`
    /// back: the accessor is idle again at the position the job reports, and a
    /// failed write is reported.
    pub fn poll_flush_finish(&mut self, op: Operation<E>, buf: RingBuffer) -> (r: Result<(), E>)
        requires
            old(self)@.held is None,
        ensures
            r == flush_result(op),
            final(self)@ == flush_settled(old(self)@, op, buf@),
    {
        self.inner = TaskState::Idle(buf);
        match op {
            Operation::Write(Err(e)) => Err(e),
            Operation::Read(Ok(p)) => {
                self.pos = p;
                Ok(())
            },
            Operation::Write(Ok(p)) => {
                self.pos = p;
                Ok(())
            },
            Operation::Seek(Ok(p)) => {
                self.pos = p;
                Ok(())
            },
            _ => Ok(()),
        }
    }

    /// The start of `poll_complete_inflight`: whether it is done at once, which
    /// it is once no job runs; a kept failure stays kept for the next write or
    /// flush, and a running job is waited for all the same.
    pub fn poll_complete_inflight_begin(&mut self) -> (done: bool)
        ensures
            final(self)@ == old(self)@,
            done == (old(self)@.held is Some),
    {
        !self.inner.is_busy()
    }

    /// The end of `poll_complete_inflight` once the job finished with `op`:
    /// the accessor is idle again at the position the job reports, and a
    /// failed write is kept to be reported.
    pub fn poll_complete_inflight_finish(&mut self, op: Operation<E>, buf: RingBuffer)
        requires
            old(self)@.held is None,
        ensures
            final(self)@ == (PollView {
                last_write_err: kept_failure(old(self)@.last_write_err, op),
                ..flush_settled(old(self)@, op, buf@)
            }),
    {
        let flushed = self.poll_flush_finish(op, buf);
        match flushed {
            Err(e) => {
                self.last_write_err = Some(e);
            },
            Ok(()) => {},
        }
    }

    /// Keeps `e` to be reported by the next write or flush: the job in flight
    /// could not be completed.
    pub fn keep_write_err(&mut self, e: E)
        ensures
            final(self)@ == (PollView { last_write_err: Some(e), ..old(self)@ }),
    {
        self.last_write_err = Some(e);
    }
}

/// The state of a reading accessor as the contracts see it.
pub struct ReadView {
    pub held: Option<Seq<u8>>,
    pub pos: u64,
}

/// The state of a reading accessor between polls.
pub struct PollReadState {
    pub inner: TaskState,
    pub pos: u64,
}

impl View for PollReadState {
    type V = ReadView;

    open spec fn view(&self) -> ReadView {
        ReadView { held: self.inner.held(), pos: self.pos }
    }
}

impl PollReadState {
    /// Idle, with an empty buffer, at position 0.
    pub fn new() -> (s: Self)
        ensures
            s@ == (ReadView { held: Some(Seq::<u8>::empty()), pos: 0 }),
    {
        PollReadState { inner: TaskState::new(), pos: 0 }
    }

    /// The start of `poll_flush` (and of `poll_complete_inflight`): whether it
    /// is done at once, which it is unless a job runs.
    pub fn poll_flush_begin(&self) -> (done: bool)
        ensures
            done == (self@.held is Some),
    {
        !self.inner.is_busy()
    }

    /// The end of `poll_flush` once the job finished, whatever it did: the
    /// accessor is idle again and the flush succeeds. The position the job
    /// reports is not taken.
    pub fn poll_flush_finish<E>(&mut self, op: Operation<E>, buf: RingBuffer)
        requires
            old(self)@.held is None,
        ensures
            final(self)@ == (ReadView { held: Some(buf@), ..old(self)@ }),
    {
        self.inner = TaskState::Idle(buf);
    }
}

/// Completing the job in flight leaves no job running and loses no write
/// failure: once the job finished, the next write or flush reports the failure
/// it left, or else the one kept before.
pub proof fn lemma_complete_inflight_keeps_failure<E>(v: PollView<E>, op: Operation<E>, buf: Seq<u8>)
    requires
        v.held is None,
    ensures
        ({
            let after = PollView { last_write_err: kept_failure(v.last_write_err, op), ..flush_settled(v, op, buf) };
            &&& after.held is Some
            &&& (op matches Operation::Write(Err(e)) ==> after.last_write_err == Some(e))
            &&& (!(op matches Operation::Write(Err(_))) ==> after.last_write_err == v.last_write_err)
        }),
{
}

/// What a flush of a writing accessor reports and leaves, whatever it was
/// before: it fails exactly when the job it waited for was a failed write,
/// with that failure; the accessor is idle again with the buffer handed back,
/// at the position a job that succeeded reports, or where it was after a job
/// that failed; a finished job leaves its write failure to be reported, or else
/// the one kept before.
pub proof fn lemma_flush_outcomes<E>(v: PollView<E>, op: Operation<E>, buf: Seq<u8>)
    ensures
        op matches Operation::Write(Err(e)) ==> flush_result(op) == Err::<(), E>(e),
        !(op matches Operation::Write(Err(_))) ==> flush_result(op) is Ok,
        flush_settled(v, op, buf).held == Some(buf),
        flush_settled(v, op, buf).last_write_err == v.last_write_err,
        op matches Operation::Write(Ok(p)) ==> flush_settled(v, op, buf).pos == p,
        op matches Operation::Read(Ok(p)) ==> flush_settled(v, op, buf).pos == p,
        op matches Operation::Seek(Ok(p)) ==> flush_settled(v, op, buf).pos == p,
        op matches Operation::Write(Err(_)) ==> flush_settled(v, op, buf).pos == v.pos,
        op matches Operation::Read(Err(_)) ==> flush_settled(v, op, buf).pos == v.pos,
        op matches Operation::Seek(Err(_)) ==> flush_settled(v, op, buf).pos == v.pos,
        op matches Operation::Write(Err(e)) ==> kept_failure(v.last_write_err, op) == Some(e),
        !(op matches Operation::Write(Err(_))) ==> kept_failure(v.last_write_err, op) == v.last_write_err,
{
}

} // verus!
