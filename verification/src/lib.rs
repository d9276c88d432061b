//! A coordinator-less task queue over a shared filesystem.
//!
//! Submitters drop task records into per-node inboxes, one runner per node
//! claims them by atomic rename, executes them, and archives the results.
//! This crate holds the protocol's data model and every decision the
//! processes make: filename encoding and ordering, claim selection,
//! deduplication, node selection, cancellation matching, and the observer's
//! classification of the on-disk state.

use vstd::prelude::*;

pub mod cancel;
pub mod clock;
pub mod config;
pub mod fname;
pub mod ids;
pub mod models;
pub mod observe;
pub mod protocol;
pub mod runner;
pub mod strutil;
pub mod submit;

verus! {

/// Threshold in seconds past which a heartbeat no longer counts as fresh
/// for node selection and stuck detection.
pub const STALE_SECS: u64 = 120;

/// Threshold in seconds past which a status display marks a node stale.
pub const DISPLAY_STALE_SECS: u64 = 60;

/// A heartbeat at `ts` is fresh at `now` under threshold `thr` when less
/// than `thr` seconds have passed since it was written.  A heartbeat from
/// the future (clock skew between nodes) counts as fresh.
pub open spec fn spec_fresh(ts: u64, now: u64, thr: u64) -> bool {
    now < ts || now - ts < thr
}

/// Decides heartbeat freshness: strictly less than `thr` seconds old.
pub fn heartbeat_fresh(ts: u64, now: u64, thr: u64) -> (r: bool)
    ensures
        r == spec_fresh(ts, now, thr),
{
    now < ts || now - ts < thr
}

} // verus!
