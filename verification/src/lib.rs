//! Simulated-annealing solvers for tuning a problem's parameters: the
//! acceptance rule, the cooling schedules, the primitives that workers
//! coordinate through, and three search strategies built from them.
//!
//! Energies and temperatures are whole numbers of a unit that the caller
//! chooses. Whatever needs real-valued arithmetic or randomness, the
//! random test of the acceptance rule and the exponential schedule, is
//! asked of the `Host` that a solver runs with.

pub mod energy;
pub mod cooler;
pub mod params;
pub mod problem;
pub mod machine;
pub mod chain;
pub mod pool;
pub mod results;
pub mod seqsa;
pub mod mir;
pub mod spis;
