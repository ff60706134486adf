//! The tuning parameters that every solver is built from.

use vstd::prelude::*;
use crate::cooler::{CoolingSchedule, StepsCooler};
use crate::energy::EnergyType;

verus! {

/// The parameters of one annealing run.
#[derive(Clone, Copy, Debug, PartialEq, Eq, Structural)]
pub struct TunerParameter {
    pub max_step: u64,
    pub min_temp: u64,
    pub max_temp: u64,
    pub cooling: CoolingSchedule,
    pub energy: EnergyType,
}

impl TunerParameter {
    /// Parameters are valid with at least one step and a positive lowest
    /// temperature that does not exceed the highest.
    pub open spec fn valid(self) -> bool {
        &&& 1 <= self.max_step
        &&& 0 < self.min_temp <= self.max_temp
    }

    /// The cooler of these parameters.
    pub open spec fn cooler_spec(self) -> StepsCooler {
        StepsCooler { max_steps: self.max_step, min_temp: self.min_temp, max_temp: self.max_temp }
    }

    /// Tests whether the parameters are valid.
    pub fn is_valid(&self) -> (b: bool)
        ensures
            b == self.valid(),
    {
        1 <= self.max_step && 0 < self.min_temp && self.min_temp <= self.max_temp
    }

    /// The cooler of these parameters.
    pub fn cooler(&self) -> (c: StepsCooler)
        ensures
            c == self.cooler_spec(),
            self.valid() ==> c.valid(),
    {
        StepsCooler { max_steps: self.max_step, min_temp: self.min_temp, max_temp: self.max_temp }
    }
}

} // verus!
