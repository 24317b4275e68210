//! Verified core of a single-host resource monitor: collectors that turn
//! cumulative kernel counters into per-interval rates, a threshold alert
//! checker with per-key cooldown, and the log-segmentation protocol that
//! rotates and renames output files.

use vstd::prelude::*;

pub mod bytes;
pub mod numfmt;
pub mod rates;
pub mod statemap;
pub mod cpu;
pub mod memory;
pub mod disk;
pub mod network;
pub mod psi;
pub mod process;
pub mod alert;
pub mod display;
pub mod segments;
pub mod timefmt;
pub mod logfmt;
pub mod textlog;
pub mod summary;
pub mod plotload;

verus! {

/// Saturating difference of two cumulative counter readings: a counter that
/// reset (or a clock that jumped) yields a delta of zero, never a negative
/// rate.
pub open spec fn counter_delta(cur: u64, prev: u64) -> u64 {
    if cur >= prev {
        (cur - prev) as u64
    } else {
        0u64
    }
}

/// Computes the saturating delta of a cumulative counter.
pub fn delta_u64(cur: u64, prev: u64) -> (r: u64)
    ensures
        r == counter_delta(cur, prev),
{
    if cur >= prev {
        cur - prev
    } else {
        0
    }
}

} // verus!
