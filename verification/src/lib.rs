//! Single-writer / multi-reader file access: the decisions of the buffered
//! accessors, the byte ring buffer they share with their background jobs,
//! the bookkeeping of written and synced byte ranges, and the sync strategies.
//!
//! Everything here is plain computation. Opening files, running the
//! background jobs and polling them belongs to the program that drives
//! these state machines.

pub mod poll_state;
pub mod range_set;
pub mod ring_buf;
pub mod rw_accessor;
pub mod state_reader;
pub mod strategy;
pub mod task_state;
pub mod writer;
