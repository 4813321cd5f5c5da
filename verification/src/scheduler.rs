//! Scheduler.
//!
//! The worker runs indefinitely: each cycle performs one full document
//! parsing pass over a snapshot of the unprocessed-document backlog, then
//! single chunk-embedding steps until that backlog is empty, then suspends
//! for the fixed interval below before polling again.  The driver owns the
//! loop and the suspension; the stages it runs each cycle are
//! [`crate::parsing`] and [`crate::embedding`].  With both backlogs empty a
//! cycle plans no work and writes nothing, so an idle worker only polls.

use vstd::prelude::*;

verus! {

/// The fixed interval, in milliseconds, the worker suspends for between
/// cycles; the only throttle the pipeline has.
pub const POLL_INTERVAL_MILLIS: u64 = 5000;

} // verus!
