use swmr_file::poll_state::{FlushStart, PollReadState, PollWriteState};
use swmr_file::range_set::{empty_ranges, first_written_run, insert_span, record_span};
use swmr_file::ring_buf::{RingBuffer, BUFFER_MAX_SIZE};
use swmr_file::rw_accessor;
use swmr_file::state_reader;
use swmr_file::task_state::{
    gather_into, prepare_seek, slices_total, AccessError, Operation, ReadIdle, SeekTarget, Step,
    TaskState,
};
use swmr_file::strategy::{sync_write_step, ImmediateSyncStrategy, ThresholdSyncStrategy};
use swmr_file::writer;

type Op = Operation<String>;

fn held(t: &TaskState) -> Option<Vec<u8>> {
    match t {
        TaskState::Idle(b) => Some(b.as_slice().to_vec()),
        TaskState::Busy => None,
    }
}

fn buffer_of(bytes: &[u8]) -> RingBuffer {
    let mut b = RingBuffer::new();
    b.extend_from_slice(bytes);
    b
}

#[test]
fn new_states_are_idle_at_zero() {
    let w: PollWriteState<String> = PollWriteState::new();
    assert_eq!(held(&w.inner), Some(vec![]));
    assert_eq!(w.pos, 0);
    assert!(w.last_write_err.is_none());
    let r = PollReadState::new();
    assert_eq!(held(&r.inner), Some(vec![]));
    assert_eq!(r.pos, 0);
}

#[test]
fn relative_seek_moves_back_over_buffered_bytes() {
    let (t, b) = prepare_seek(buffer_of(b"abcd"), SeekTarget::Current(10));
    assert!(t == SeekTarget::Current(6));
    assert!(b.is_empty());
    // an absolute seek drops the read-ahead too: reads go on from the target
    let (t, b) = prepare_seek(buffer_of(b"abcd"), SeekTarget::Start(3));
    assert!(t == SeekTarget::Start(3));
    assert!(b.is_empty());
    let (t, b) = prepare_seek(RingBuffer::new(), SeekTarget::Current(-2));
    assert!(t == SeekTarget::Current(-2));
    assert!(b.is_empty());
}

#[test]
fn rw_seek_refused_while_busy() {
    let mut st: PollWriteState<String> = PollWriteState::new();
    st.pos = 40;
    st.inner = TaskState::Idle(buffer_of(b"xyz"));
    let job = rw_accessor::start_seek(&mut st, SeekTarget::Current(5)).ok().unwrap();
    assert_eq!(job.base, Some(40));
    assert!(job.target == SeekTarget::Current(2));
    assert!(job.buf.is_empty());
    assert!(st.inner.is_busy());
    let again = rw_accessor::start_seek(&mut st, SeekTarget::Start(0));
    assert!(matches!(again, Err(AccessError::Busy)));
    assert_eq!(AccessError::Busy.message(), "other file operation is pending, call poll_complete before start_seek");
}

#[test]
fn rw_poll_complete_reports_seek_and_settles_others() {
    let mut st: PollWriteState<String> = PollWriteState::new();
    st.pos = 7;
    assert_eq!(rw_accessor::poll_complete_idle(&st), Some(7));
    st.inner = TaskState::Busy;
    assert_eq!(rw_accessor::poll_complete_idle(&st), None);
    let step = rw_accessor::poll_complete_on(&mut st, Op::Write(Ok(30)), RingBuffer::new());
    assert!(matches!(step, Step::Continue));
    assert_eq!(st.pos, 30);
    st.inner = TaskState::Busy;
    let step = rw_accessor::poll_complete_on(&mut st, Op::Write(Err("full".into())), RingBuffer::new());
    assert!(matches!(step, Step::Continue));
    assert_eq!(st.last_write_err.as_deref(), Some("full"));
    st.inner = TaskState::Busy;
    let step = rw_accessor::poll_complete_on(&mut st, Op::Seek(Ok(99)), RingBuffer::new());
    assert!(matches!(step, Step::Return(Ok(99))));
    assert_eq!(st.pos, 99);
    assert_eq!(held(&st.inner), Some(vec![]));
}

#[test]
fn rw_write_takes_prefix_and_reports_failure_once() {
    let mut st: PollWriteState<String> = PollWriteState::new();
    st.pos = 100;
    st.inner = TaskState::Idle(buffer_of(b"ahead"));
    let job = rw_accessor::poll_write_idle(&mut st, b"payload").ok().unwrap();
    assert_eq!(job.base, Some(100));
    assert_eq!(job.mv, -5);
    assert_eq!(job.payload_len, 7);
    assert_eq!(job.buf.as_slice(), b"payload");
    assert!(st.inner.is_busy());
    let step = rw_accessor::poll_write_on(&mut st, Op::Write(Err("io".into())), job.buf);
    assert!(matches!(step, Step::Return(Err(ref e)) if e == "io"));
    assert_eq!(st.pos, 100);
    // a failure settled by another poll is reported by the next write, once
    st.inner = TaskState::Busy;
    rw_accessor::poll_complete_on(&mut st, Op::Write(Err("late".into())), buffer_of(b"kept"));
    // the next write reports it before taking any byte, and keeps none after
    match rw_accessor::poll_write_idle(&mut st, b"more") {
        Err(e) => assert_eq!(e, "late"),
        Ok(_) => panic!("expected the kept failure"),
    }
    assert_eq!(held(&st.inner), Some(b"kept".to_vec()));
    assert!(st.last_write_err.is_none());
    assert!(rw_accessor::poll_write_idle(&mut st, b"more").is_ok());
}

#[test]
fn rw_write_success_moves_position() {
    let mut st: PollWriteState<String> = PollWriteState::new();
    let big = vec![1u8; BUFFER_MAX_SIZE * 2];
    let job = rw_accessor::poll_write_idle(&mut st, &big).ok().unwrap();
    assert_eq!(job.payload_len, BUFFER_MAX_SIZE);
    let mut writed = empty_ranges();
    let end = rw_accessor::write_job_done(&mut writed, 0, job.payload_len);
    assert_eq!(end, BUFFER_MAX_SIZE as u64);
    assert_eq!(first_written_run(&writed, 0, u64::MAX - 1), Some(BUFFER_MAX_SIZE as u64 - 1));
    let step = rw_accessor::poll_write_on(&mut st, Op::Write(Ok(end)), RingBuffer::new());
    assert!(matches!(step, Step::Continue));
    assert_eq!(st.pos, end);
}

#[test]
fn vectored_write_gathers_whole_slices() {
    let bufs = vec![b"ab".to_vec(), b"cde".to_vec(), b"f".to_vec()];
    assert_eq!(slices_total(&bufs), 6);
    let mut b = RingBuffer::new();
    assert_eq!(gather_into(&mut b, &bufs), 6);
    assert_eq!(b.as_slice(), b"abcdef");
    // the first slice is always taken whole, even past the buffer size
    let big = vec![vec![9u8; BUFFER_MAX_SIZE + 5], b"tail".to_vec()];
    let mut b = RingBuffer::new();
    let n = gather_into(&mut b, &big);
    assert_eq!(n, BUFFER_MAX_SIZE + 9);
    let mut st: PollWriteState<String> = PollWriteState::new();
    let job = rw_accessor::poll_write_vectored_idle(&mut st, &bufs).ok().unwrap();
    assert_eq!(job.payload_len, 6);
    assert_eq!(job.mv, 0);
    let empty: Vec<Vec<u8>> = vec![];
    let mut b = RingBuffer::new();
    assert_eq!(gather_into(&mut b, &empty), 0);
}

#[test]
fn rw_read_delivers_buffered_then_starts_job() {
    let mut st: PollWriteState<String> = PollWriteState::new();
    st.pos = 10;
    st.inner = TaskState::Idle(buffer_of(b"buffered"));
    match rw_accessor::poll_read_idle(&mut st, 3) {
        ReadIdle::Deliver(out) => assert_eq!(out, b"buf".to_vec()),
        ReadIdle::Start(_) => panic!("expected delivery"),
    }
    assert_eq!(held(&st.inner), Some(b"fered".to_vec()));
    st.inner = TaskState::Idle(RingBuffer::new());
    let mut job = match rw_accessor::poll_read_idle(&mut st, 3) {
        ReadIdle::Start(job) => job,
        ReadIdle::Deliver(_) => panic!("expected a job"),
    };
    assert_eq!(job.base, Some(10));
    let op: Op = rw_accessor::read_job_done(&mut job.buf, 10, Ok(b"0123".to_vec()));
    assert!(matches!(op, Operation::Read(Ok(14))));
    let step = rw_accessor::poll_read_on(&mut st, op, job.buf, 3);
    match step {
        Step::Return(Ok(out)) => assert_eq!(out, b"012".to_vec()),
        _ => panic!("expected bytes"),
    }
    assert_eq!(st.pos, 14);
    assert_eq!(held(&st.inner), Some(b"3".to_vec()));
}

#[test]
fn rw_read_failure_and_other_jobs() {
    let mut st: PollWriteState<String> = PollWriteState::new();
    st.inner = TaskState::Busy;
    let step = rw_accessor::poll_read_on(&mut st, Op::Read(Err("eio".into())), RingBuffer::new(), 8);
    assert!(matches!(step, Step::Return(Err(ref e)) if e == "eio"));
    st.inner = TaskState::Busy;
    let step = rw_accessor::poll_read_on(&mut st, Op::Seek(Ok(5)), RingBuffer::new(), 8);
    assert!(matches!(step, Step::Continue));
    assert_eq!(st.pos, 5);
    st.inner = TaskState::Busy;
    let step = rw_accessor::poll_read_on(&mut st, Op::Write(Err("w".into())), RingBuffer::new(), 8);
    assert!(matches!(step, Step::Continue));
    assert_eq!(st.last_write_err.as_deref(), Some("w"));
}

#[test]
fn rw_set_len_keeps_user_position() {
    let mut st: PollWriteState<String> = PollWriteState::new();
    st.pos = 64;
    st.inner = TaskState::Idle(buffer_of(b"four"));
    let job = rw_accessor::set_len_begin(&mut st);
    assert_eq!(job.base, Some(64));
    assert_eq!(job.mv, -4);
    assert!(job.buf.is_empty());
    let r = rw_accessor::set_len_finish(&mut st, Op::Seek(Ok(60)), job.buf);
    assert_eq!(r, Ok(()));
    assert_eq!(st.pos, 60);
}

#[test]
fn rw_sync_read_counts_written_run() {
    let mut w = empty_ranges();
    insert_span(&mut w, 0, 9);
    let mut st: PollWriteState<String> = PollWriteState::new();
    assert_eq!(rw_accessor::user_position_of(&st), 0);
    // five written bytes read from offset 0 count five
    assert_eq!(rw_accessor::sync_read_result(&w, 0, 5), Ok(5));
    assert_eq!(rw_accessor::sync_read_result(&w, 0, 50), Ok(10));
    assert_eq!(rw_accessor::sync_read_result(&w, 10, 5), Err(AccessError::UnexpectedEof));
    assert_eq!(rw_accessor::sync_read_result(&w, 0, 0), Err(AccessError::UnexpectedEof));
    st.pos = 12;
    st.inner = TaskState::Idle(buffer_of(b"ab"));
    assert_eq!(rw_accessor::user_position_of(&st), 10);
}

#[test]
fn rw_sync_read_to_end_stops_at_hole() {
    let mut w = empty_ranges();
    insert_span(&mut w, 0, 3);
    let mut st: PollWriteState<String> = PollWriteState::new();
    st.pos = 8;
    assert_eq!(rw_accessor::sync_read_to_end_settle(&mut st, &w, 8), Ok(4));
    assert_eq!(st.pos, 4);
    assert_eq!(held(&st.inner), Some(vec![]));
    let mut st: PollWriteState<String> = PollWriteState::new();
    st.pos = 9;
    assert_eq!(rw_accessor::sync_read_to_end_settle(&mut st, &w, 4), Err(AccessError::UnexpectedEof));
    assert_eq!(st.pos, 9);
}

#[test]
fn sync_write_step_records_and_asks() {
    let mut w = empty_ranges();
    let s = empty_ranges();
    assert!(sync_write_step(&ImmediateSyncStrategy, &mut w, &s, 5, 3));
    assert_eq!(first_written_run(&w, 5, 100), Some(7));
    assert!(!sync_write_step(&ThresholdSyncStrategy::default(), &mut w, &s, 8, 2));
    assert_eq!(first_written_run(&w, 5, 100), Some(9));
    let mut synced = empty_ranges();
    record_span(&mut synced, 5, 3);
    assert_eq!(first_written_run(&synced, 5, 100), Some(7));
}

#[test]
fn flush_reports_kept_failure_first() {
    let mut st: PollWriteState<String> = PollWriteState::new();
    st.last_write_err = Some("kept".into());
    assert!(st.poll_complete_inflight_begin());
    assert_eq!(st.last_write_err.as_deref(), Some("kept"));
    // a kept failure does not stop completion from waiting for a running job
    st.inner = TaskState::Busy;
    assert!(!st.poll_complete_inflight_begin());
    st.poll_complete_inflight_finish(Op::Write(Ok(33)), RingBuffer::new());
    assert_eq!(st.last_write_err.as_deref(), Some("kept"));
    assert_eq!(st.pos, 33);
    match st.poll_flush_begin() {
        FlushStart::Failed(e) => assert_eq!(e, "kept"),
        _ => panic!("expected the kept failure"),
    }
    assert!(matches!(st.poll_flush_begin(), FlushStart::Done));
    st.inner = TaskState::Busy;
    assert!(matches!(st.poll_flush_begin(), FlushStart::Wait));
    assert!(!st.poll_complete_inflight_begin());
    let r = st.poll_flush_finish(Op::Write(Err("late".into())), RingBuffer::new());
    assert_eq!(r, Err("late".to_string()));
    // a flush that finishes a write moves to where the write ended
    st.inner = TaskState::Busy;
    assert_eq!(st.poll_flush_finish(Op::Write(Ok(120)), RingBuffer::new()), Ok(()));
    assert_eq!(st.pos, 120);
    st.inner = TaskState::Busy;
    st.poll_complete_inflight_finish(Op::Write(Err("again".into())), RingBuffer::new());
    assert_eq!(st.last_write_err.as_deref(), Some("again"));
    assert!(!st.inner.is_busy());
}

#[test]
fn read_state_flush() {
    let mut st = PollReadState::new();
    assert!(st.poll_flush_begin());
    st.inner = TaskState::Busy;
    assert!(!st.poll_flush_begin());
    st.poll_flush_finish(Op::Read(Err("x".into())), RingBuffer::new());
    assert!(st.poll_flush_begin());
    st.inner = TaskState::Busy;
    st.pos = 3;
    st.poll_flush_finish(Op::Read(Ok(9)), buffer_of(b"q"));
    assert_eq!(st.pos, 3);
    assert_eq!(held(&st.inner), Some(b"q".to_vec()));
}

#[test]
fn reader_follows_its_own_position() {
    let mut st = PollReadState::new();
    st.pos = 3;
    let job = state_reader::start_seek(&mut st, SeekTarget::End(-1)).ok().unwrap();
    assert_eq!(job.base, Some(3));
    let step = state_reader::poll_complete_on(&mut st, Op::Seek(Ok(41)), job.buf);
    assert!(matches!(step, Step::Return(Ok(41))));
    assert_eq!(state_reader::poll_complete_idle(&st), Some(41));
    let mut job = match state_reader::poll_read_idle(&mut st, 16) {
        ReadIdle::Start(job) => job,
        _ => panic!("expected a job"),
    };
    let op: Op = rw_accessor::read_job_done(&mut job.buf, 41, Ok(b"hi".to_vec()));
    match state_reader::poll_read_on(&mut st, op, job.buf, 16) {
        Step::Return(Ok(out)) => assert_eq!(out, b"hi".to_vec()),
        _ => panic!("expected bytes"),
    }
    assert_eq!(st.pos, 43);
}

#[test]
fn reader_sync_reads_move_to_run_end() {
    let mut w = empty_ranges();
    insert_span(&mut w, 5, 9);
    // the read counted from one past 4 covers 5..=14: the run 5..=9 is read
    let mut st = PollReadState::new();
    st.pos = 4;
    st.inner = TaskState::Idle(buffer_of(b"zz"));
    assert_eq!(state_reader::sync_read_settle(&mut st, &w, 10), Ok(5));
    assert_eq!(st.pos, 10);
    assert_eq!(held(&st.inner), Some(b"zz".to_vec()));
    // from one past 10 nothing is written: the position stays
    assert_eq!(state_reader::sync_read_settle(&mut st, &w, 3), Err(AccessError::UnexpectedEof));
    assert_eq!(st.pos, 10);
    // an empty read finds nothing either
    assert_eq!(state_reader::sync_read_settle(&mut st, &w, 0), Err(AccessError::UnexpectedEof));
    assert_eq!(st.pos, 10);
    // to the end: the 7 bytes end just before 12, so they cover 5..=11
    let mut st = PollReadState::new();
    st.pos = 12;
    assert_eq!(state_reader::sync_read_to_end_settle(&mut st, &w, 7), Ok(5));
    assert_eq!(st.pos, 10);
    // 15..=19 is not written: one before where the bytes start
    let mut st = PollReadState::new();
    st.pos = 20;
    assert_eq!(state_reader::sync_read_to_end_settle(&mut st, &w, 5), Err(AccessError::UnexpectedEof));
    assert_eq!(st.pos, 14);
    let mut st = PollReadState::new();
    st.pos = 6;
    assert_eq!(state_reader::sync_read_to_end_settle(&mut st, &w, 0), Err(AccessError::UnexpectedEof));
    assert_eq!(st.pos, 5);
}

#[test]
fn writer_jobs_work_from_the_cursor() {
    let mut st: PollWriteState<String> = PollWriteState::new();
    st.pos = 8;
    st.inner = TaskState::Idle(buffer_of(b"rd"));
    let job = writer::start_seek(&mut st, SeekTarget::Current(0)).ok().unwrap();
    assert_eq!(job.base, None);
    assert!(job.target == SeekTarget::Current(-2));
    let step = writer::poll_complete_on(&mut st, Op::Write(Ok(50)), job.buf);
    assert!(matches!(step, Step::Continue));
    assert_eq!(st.pos, 8);
    assert_eq!(writer::poll_complete_idle(&st), Some(8));
    let job = writer::poll_write_idle(&mut st, b"data").ok().unwrap();
    assert_eq!(job.base, None);
    assert_eq!(job.payload_len, 4);
    let step = writer::poll_write_on(&mut st, Op::Write(Ok(12)), job.buf);
    assert!(matches!(step, Step::Continue));
    assert_eq!(st.pos, 8);
    let job = writer::poll_write_vectored_idle(&mut st, &vec![b"x".to_vec()]).ok().unwrap();
    assert_eq!(job.payload_len, 1);
    let step = writer::poll_write_on(&mut st, Op::Write(Err("no".into())), job.buf);
    assert!(matches!(step, Step::Return(Err(ref e)) if e == "no"));
}

#[test]
fn writer_reads_and_set_len() {
    let mut st: PollWriteState<String> = PollWriteState::new();
    st.pos = 2;
    let mut job = match writer::poll_read_idle(&mut st, 4) {
        ReadIdle::Start(job) => job,
        _ => panic!("expected a job"),
    };
    assert_eq!(job.base, None);
    let op: Op = rw_accessor::read_job_done(&mut job.buf, 0, Ok(b"abcdef".to_vec()));
    match writer::poll_read_on(&mut st, op, job.buf, 4) {
        Step::Return(Ok(out)) => assert_eq!(out, b"abcd".to_vec()),
        _ => panic!("expected bytes"),
    }
    assert_eq!(st.pos, 2);
    st.inner = TaskState::Busy;
    let step = writer::poll_read_on(&mut st, Op::Seek(Ok(77)), RingBuffer::new(), 4);
    assert!(matches!(step, Step::Continue));
    assert_eq!(st.pos, 77);
    let job = writer::set_len_begin(&mut st);
    assert_eq!(job.base, None);
    assert_eq!(job.mv, 0);
    assert_eq!(writer::set_len_finish(&mut st, Op::Seek(Ok(0)), job.buf), Ok(()));
    assert_eq!(st.pos, 77);
}

#[test]
fn write_reads_back_in_full() {
    let mut w = empty_ranges();
    insert_span(&mut w, 100, 120);
    let end = rw_accessor::write_job_done(&mut w, 5, 4);
    assert_eq!(end, 9);
    assert_eq!(rw_accessor::sync_read_result(&w, 5, 4), Ok(4));
    // one byte short of a gap, the run stops at the gap
    assert_eq!(rw_accessor::sync_read_result(&w, 5, 10), Ok(4));
}
