//! Core of a terminal log pager: an append-only log store, versioned search
//! criteria, fixed-size scan-job dispatch, regex scanning of line ranges, and
//! an ordered, duplicate-free merge of version-tagged match batches.

pub mod control;
pub mod engine;
pub mod laws;
pub mod logbuf;
pub mod reader;
pub mod search;
pub mod sorter;
pub mod types;

use vstd::prelude::*;

verus! {

/// Line ranges handed to scan workers are cut into chunks of at most this
/// many lines, to bound the latency and memory of a single job.
pub const CHUNK_LINES: usize = 10;

/// A query shorter than this many characters disables filtering instead of
/// being compiled, so near-empty queries never trigger a scan.
pub const MIN_QUERY_LEN: usize = 3;

} // verus!
