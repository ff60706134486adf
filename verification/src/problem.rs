//! What a solver consumes: the problem being tuned and the host that
//! supplies randomness, real-valued arithmetic and the sink for
//! intermediate observations.

use vstd::prelude::*;
use crate::cooler::{StepsCooler, Temperature};

verus! {

/// Why a solver gave up.
#[derive(Clone, Copy, Debug, PartialEq, Eq, Structural)]
pub enum SolverError {
    /// The starting state of a chain has no energy.
    InfeasibleInitial,
}

/// The problem being tuned: a generator of states and an energy oracle.
pub trait Problem {
    /// The states that the search moves through.
    type State;

    /// The state that the search starts from.
    fn initial_state(&mut self) -> Self::State;

    /// A random state, used to seed further chains.
    fn rand_state(&mut self) -> Self::State;

    /// A candidate state near `current`.
    fn new_state(&mut self, current: &Self::State, max_steps: u64, step: u64) -> Self::State;

    /// The energy of `state` as measured by `worker`, or nothing where the
    /// state cannot be evaluated.
    fn energy(&mut self, state: &Self::State, worker: usize) -> Option<i64>;

    /// The states reachable from `state` in one move.
    fn neigh_space(&mut self, state: &Self::State) -> Vec<Self::State>;
}

/// What the surroundings of a solver provide.
pub trait Host<S> {
    /// The random test of the acceptance rule for a candidate that is no
    /// improvement: draws a uniform number and compares it with the
    /// exponential of `delta` over `temperature`.
    fn draw(&mut self, delta: i128, temperature: u64, worker: usize) -> bool;

    /// The exponential schedule of `cooler` at `step`.
    fn exponential(&mut self, cooler: &StepsCooler, step: u64) -> u64;

    /// Receives the observation made at one step, `elapsed_ns` nanoseconds
    /// into the run.
    fn send_update(
        &mut self,
        temperature: u64,
        elapsed_ns: u64,
        last_energy: i64,
        last_state: &S,
        best_energy: i64,
        best_state: &S,
        elapsed_steps: u64,
        worker: usize,
    );
}

/// Moves `temperature` on to `step`, asking the host for the exponential
/// schedule where that is the one configured.
pub fn cool<S, H: Host<S>>(host: &mut H, temperature: &mut Temperature, step: u64)
    requires
        old(temperature).wf(),
    ensures
        final(temperature).wf(),
        final(temperature).max_temp == old(temperature).max_temp,
        final(temperature).cooler == old(temperature).cooler,
        final(temperature).schedule == old(temperature).schedule,
        exists|power: u64|
            final(temperature).current == #[trigger] old(temperature).updated(
                step as int,
                power as int,
            ),
{
    let power: u64 = if temperature.needs_power() {
        host.exponential(&temperature.cooler, step)
    } else {
        0
    };
    temperature.update(step, power);
}

} // verus!
