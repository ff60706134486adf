//! What a solver reads off the machine it runs on: the number of cores
//! and the clock.

use vstd::prelude::*;

verus! {

/// The number of physical cores of the machine, as `num_cpus::get_physical`
/// reports it. Taken on trust from that function's documentation: the
/// count is at least one. Nothing else is known of it; it may differ from
/// one call to the next.
#[verifier::external_body]
pub(crate) fn physical_cores() -> (n: usize)
    ensures
        n >= 1,
{
    num_cpus::get_physical()
}

/// The reading of the high-resolution clock in nanoseconds, as
/// `time::precise_time_ns` returns it. Nothing is known of the reading:
/// its epoch is unspecified and two readings need not be in order.
#[verifier::external_body]
pub(crate) fn precise_time_ns() -> (now: u64) {
    time::precise_time_ns()
}

/// The nanoseconds from the reading `start` to the reading `now`; zero
/// where the clock has gone backwards.
pub open spec fn elapsed(start: u64, now: u64) -> u64 {
    if now >= start {
        (now - start) as u64
    } else {
        0
    }
}

/// Computes the nanoseconds from the reading `start` to the reading `now`.
pub fn elapsed_between(start: u64, now: u64) -> (ns: u64)
    ensures
        ns == elapsed(start, now),
{
    if now >= start {
        now - start
    } else {
        0
    }
}

} // verus!
