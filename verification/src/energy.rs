//! Energies, the signed energy change and the acceptance rule shared by
//! every solver.

use vstd::prelude::*;

verus! {

/// Which direction of the energy counts as better.
#[derive(Clone, Copy, Debug, PartialEq, Eq, Structural)]
pub enum EnergyType {
    /// Larger energies are better.
    Throughput,
    /// Smaller energies are better.
    Latency,
}

/// How a candidate fared against the current energy.
#[derive(Clone, Copy, Debug, PartialEq, Eq, Structural)]
pub enum Verdict {
    /// The candidate is strictly better and is taken unconditionally.
    Improved,
    /// The candidate is no better, and the random draw let it through.
    Tolerated,
    /// The candidate is no better, and the random draw turned it down.
    Rejected,
}

impl Verdict {
    /// Whether the candidate replaces the current state.
    pub open spec fn accepts(self) -> bool {
        self != Verdict::Rejected
    }

    /// Whether the candidate replaces the current state.
    pub fn is_accept(self) -> (b: bool)
        ensures
            b == self.accepts(),
    {
        match self {
            Verdict::Improved => true,
            Verdict::Tolerated => true,
            Verdict::Rejected => false,
        }
    }
}

/// The energy change from `current` to `candidate`, signed so that a
/// positive value always means an improvement.
pub open spec fn signed_delta(kind: EnergyType, current: int, candidate: int) -> int {
    match kind {
        EnergyType::Throughput => candidate - current,
        EnergyType::Latency => -(candidate - current),
    }
}

/// The verdict on a candidate, given the outcome `draw` of the random test
/// that is consulted only when the candidate is no improvement.
pub open spec fn verdict_of(kind: EnergyType, current: int, candidate: int, draw: bool) -> Verdict {
    if signed_delta(kind, current, candidate) > 0 {
        Verdict::Improved
    } else if draw {
        Verdict::Tolerated
    } else {
        Verdict::Rejected
    }
}

/// Computes the signed energy change of a candidate.
pub fn delta(kind: EnergyType, current: i64, candidate: i64) -> (d: i128)
    ensures
        d == signed_delta(kind, current as int, candidate as int),
{
    let diff: i128 = (candidate as i128) - (current as i128);
    match kind {
        EnergyType::Throughput => diff,
        EnergyType::Latency => -diff,
    }
}

/// Whether a candidate is a strict improvement, in which case no random
/// draw is needed to accept it.
pub fn improves(kind: EnergyType, current: i64, candidate: i64) -> (b: bool)
    ensures
        b == (signed_delta(kind, current as int, candidate as int) > 0),
{
    delta(kind, current, candidate) > 0
}

/// Judges a candidate against the current energy.
pub fn judge(kind: EnergyType, current: i64, candidate: i64, draw: bool) -> (v: Verdict)
    ensures
        v == verdict_of(kind, current as int, candidate as int, draw),
{
    if improves(kind, current, candidate) {
        Verdict::Improved
    } else if draw {
        Verdict::Tolerated
    } else {
        Verdict::Rejected
    }
}

/// A strictly better candidate is accepted whatever the draw; a candidate
/// that is no better is accepted exactly when the draw says so. Swapping
/// the energy type swaps the roles of the two energies.
pub proof fn lemma_acceptance_algebra(kind: EnergyType, current: int, candidate: int, draw: bool)
    ensures
        kind == EnergyType::Throughput && candidate > current ==> verdict_of(
            kind,
            current,
            candidate,
            draw,
        ) == Verdict::Improved,
        kind == EnergyType::Latency && candidate < current ==> verdict_of(
            kind,
            current,
            candidate,
            draw,
        ) == Verdict::Improved,
        signed_delta(kind, current, candidate) <= 0 ==> verdict_of(
            kind,
            current,
            candidate,
            draw,
        ).accepts() == draw,
        signed_delta(EnergyType::Latency, current, candidate) == signed_delta(
            EnergyType::Throughput,
            candidate,
            current,
        ),
        verdict_of(EnergyType::Latency, current, candidate, draw) == verdict_of(
            EnergyType::Throughput,
            candidate,
            current,
            draw,
        ),
{
}

} // verus!
