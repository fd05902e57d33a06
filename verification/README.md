# swmr_file

Single-writer / multi-reader file access on tokio. The decisions of the
buffered accessors carry contracts and are checked against them.

- `src/` — the verified library: the byte ring buffer the accessors share with
  their background jobs (`ring_buf`), the sets of written and synced offsets
  (`range_set`), the sync strategies (`strategy`), the job phases and jobs
  (`task_state`), the state kept between polls (`poll_state`), and the poll
  decisions of the read-write accessor (`rw_accessor`), the reader that follows
  a writer (`state_reader`) and the cursor-based writer (`writer`).
- `app/` — the asynchronous accessors: opening files, running the jobs on
  tokio's blocking pool, and polling them.
- `tests/` — tests of the library.
