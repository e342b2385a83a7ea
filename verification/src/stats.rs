//! The system snapshot that widgets read.
//!
//! Statistics are sampled once, outside this library, and passed in as one
//! explicit value: every widget within one render (and across repeated
//! renders of the same snapshot) observes the same numbers rather than
//! re-sampling ambient global state.

use vstd::prelude::*;

verus! {

/// A wall-clock instant, broken down calendar-style.
///
/// The conventions follow the classic broken-down time structure: `year` is
/// counted from 1900, `month` is zero-based, `wday` is the day of the week
/// with 0 for Sunday, and `mday`, `hour`, `min`, `sec` are as usual.
#[derive(Debug, Clone, Copy, PartialEq, Eq, Structural)]
pub struct TimeParts {
    pub year: i32,
    pub month: i32,
    pub mday: i32,
    pub wday: i32,
    pub hour: i32,
    pub min: i32,
    pub sec: i32,
}

/// One sample of the system statistics, read many times.
///
/// Usage fractions are in thousandths (a value of 1000 is full usage);
/// memory is in MiB; network speeds are in bytes per second.
#[derive(Debug)]
pub struct Snapshot {
    pub cpu_total_permille: u32,
    pub cpu_per_core_permille: Vec<u32>,
    pub mem_total_mib: i32,
    pub mem_used_mib: i32,
    pub net_down: u64,
    pub net_up: u64,
    pub time: TimeParts,
}

/// Convert a byte size from KiB to MiB, truncating both the division and
/// the final narrowing the way a plain cast would.
pub fn mib_from_kib(x: u64) -> (r: i32)
    ensures
        r == (x / 1024) as i32,
{
    #[verifier::truncate]
    let r: i32 = (x / 1024) as i32;
    r
}

} // verus!
