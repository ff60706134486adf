//! Cooling schedules and the temperature cell they drive. Temperatures are
//! whole numbers of a unit of the caller's choosing.

use vstd::prelude::*;
use vstd::arithmetic::div_mod::{lemma_div_is_ordered, lemma_div_multiples_vanish};
use vstd::arithmetic::mul::{lemma_mul_inequality, lemma_mul_is_commutative};

verus! {

/// The schedule by which the temperature falls.
#[derive(Clone, Copy, Debug, PartialEq, Eq, Structural)]
pub enum CoolingSchedule {
    /// A straight line from the highest to the lowest temperature.
    Linear,
    /// A geometric interpolation between the two temperatures.
    Exponential,
    /// Each update scales the previous temperature by a fixed factor.
    BasicExp,
}

/// Numerator of the factor by which the basic exponential schedule scales
/// the temperature.
pub const BASIC_EXP_NUM: u64 = 95;

/// Denominator of that factor.
pub const BASIC_EXP_DEN: u64 = 100;

/// A cooler driven by the number of steps taken.
#[derive(Clone, Copy, Debug, PartialEq, Eq, Structural)]
pub struct StepsCooler {
    pub max_steps: u64,
    pub min_temp: u64,
    pub max_temp: u64,
}

impl StepsCooler {
    /// A cooler is valid when it has at least one step and a positive
    /// lowest temperature that does not exceed the highest.
    pub open spec fn valid(self) -> bool {
        &&& self.max_steps >= 1
        &&& 0 < self.min_temp <= self.max_temp
    }

    /// The linear schedule: the highest temperature less the share of the
    /// span that `step` has covered, rounded down to a whole unit.
    pub open spec fn linear(self, step: int) -> int {
        self.max_temp - ((self.max_temp - self.min_temp) * step) / (self.max_steps as int)
    }

    /// The basic exponential schedule: the previous temperature scaled by
    /// the fixed factor, rounded down to a whole unit.
    pub open spec fn basic_exp(temperature: int) -> int {
        (temperature * BASIC_EXP_NUM as int) / (BASIC_EXP_DEN as int)
    }

    /// The linear schedule never rises and stays between the two
    /// configured temperatures.
    pub proof fn lemma_linear_monotone(self, earlier: int, later: int)
        requires
            self.valid(),
            0 <= earlier <= later <= self.max_steps,
        ensures
            self.linear(earlier) >= self.linear(later),
            self.min_temp <= self.linear(later),
            self.linear(earlier) <= self.max_temp,
            self.linear(0) == self.max_temp,
            self.linear(self.max_steps as int) == self.min_temp,
    {
        let span = self.max_temp - self.min_temp;
        let n = self.max_steps as int;
        lemma_mul_inequality(earlier, later, span);
        lemma_mul_is_commutative(earlier, span);
        lemma_mul_is_commutative(later, span);
        lemma_div_is_ordered(span * earlier, span * later, n);
        lemma_mul_inequality(later, n, span);
        lemma_mul_is_commutative(n, span);
        lemma_div_is_ordered(span * later, span * n, n);
        lemma_div_multiples_vanish(span, n);
        lemma_mul_is_commutative(span, n);
        lemma_mul_inequality(0, earlier, span);
        lemma_div_is_ordered(0, span * earlier, n);
        assert(span * 0 == 0);
        assert(0int / n == 0);
    }

    /// The basic exponential schedule never rises.
    pub proof fn lemma_basic_exp_monotone(t: int)
        requires
            0 <= t,
        ensures
            0 <= Self::basic_exp(t) <= t,
    {
    }

    /// The temperature of the linear schedule at `step`.
    pub fn linear_cooling(&self, step: u64) -> (t: u64)
        requires
            self.valid(),
            step <= self.max_steps,
        ensures
            t == self.linear(step as int),
            self.min_temp <= t <= self.max_temp,
    {
        let span: u64 = self.max_temp - self.min_temp;
        proof {
            self.lemma_linear_monotone(step as int, step as int);
            assert((span as int) * (step as int) <= 0xffff_ffff_ffff_ffff * 0xffff_ffff_ffff_ffff)
                by (nonlinear_arith)
                requires
                    0 <= span <= 0xffff_ffff_ffff_ffff,
                    0 <= step <= 0xffff_ffff_ffff_ffff,
            ;
        }
        let covered: u128 = (span as u128) * (step as u128);
        let fall: u128 = covered / (self.max_steps as u128);
        self.max_temp - (fall as u64)
    }

    /// The temperature that follows `temperature` under the basic
    /// exponential schedule.
    pub fn basic_exp_cooling(&self, temperature: u64) -> (t: u64)
        ensures
            t == Self::basic_exp(temperature as int),
            t <= temperature,
    {
        let scaled: u128 = (temperature as u128) * (BASIC_EXP_NUM as u128);
        let next: u128 = scaled / (BASIC_EXP_DEN as u128);
        next as u64
    }
}

/// The temperature cell: the current temperature together with the cooler
/// and the schedule that drive it.
#[derive(Clone, Copy, Debug, PartialEq, Eq, Structural)]
pub struct Temperature {
    pub current: u64,
    pub max_temp: u64,
    pub cooler: StepsCooler,
    pub schedule: CoolingSchedule,
}

impl Temperature {
    /// The cell is well formed when its cooler is valid, it was started at
    /// the cooler's highest temperature and has not risen above it. Under
    /// the linear and exponential schedules it has not fallen below the
    /// lowest temperature either.
    pub open spec fn wf(self) -> bool {
        &&& self.cooler.valid()
        &&& self.max_temp == self.cooler.max_temp
        &&& self.current <= self.max_temp
        &&& self.schedule != CoolingSchedule::BasicExp ==> self.cooler.min_temp <= self.current
    }

    /// `value` brought into the range of the cooler's two temperatures.
    pub open spec fn clamped(self, value: int) -> int {
        if value < self.cooler.min_temp {
            self.cooler.min_temp as int
        } else if value > self.cooler.max_temp {
            self.cooler.max_temp as int
        } else {
            value
        }
    }

    /// The step that the schedules are evaluated at: `step`, held at the
    /// cooler's last step once the search has run past it.
    pub open spec fn capped(self, step: int) -> int {
        if step > self.cooler.max_steps {
            self.cooler.max_steps as int
        } else {
            step
        }
    }

    /// The temperature that an update at `step` stores. `power` is the
    /// value of the exponential schedule at that step; the other two
    /// schedules do not read it.
    pub open spec fn updated(self, step: int, power: int) -> int {
        match self.schedule {
            CoolingSchedule::Linear => self.cooler.linear(self.capped(step)),
            CoolingSchedule::Exponential => self.clamped(power),
            CoolingSchedule::BasicExp => StepsCooler::basic_exp(self.current as int),
        }
    }

    /// A cell at the cooler's highest temperature.
    pub fn new(cooler: StepsCooler, schedule: CoolingSchedule) -> (t: Self)
        requires
            cooler.valid(),
        ensures
            t.wf(),
            t.current == cooler.max_temp,
            t.max_temp == cooler.max_temp,
            t.cooler == cooler,
            t.schedule == schedule,
    {
        Temperature { current: cooler.max_temp, max_temp: cooler.max_temp, cooler, schedule }
    }

    /// The current temperature.
    pub fn get(&self) -> (t: u64)
        ensures
            t == self.current,
    {
        self.current
    }

    /// Whether an update needs the value of the exponential schedule.
    pub fn needs_power(&self) -> (b: bool)
        ensures
            b == (self.schedule == CoolingSchedule::Exponential),
    {
        match self.schedule {
            CoolingSchedule::Exponential => true,
            _ => false,
        }
    }

    /// Stores the temperature of the configured schedule at `step`.
    pub fn update(&mut self, step: u64, power: u64)
        requires
            old(self).wf(),
        ensures
            final(self).wf(),
            final(self).current == old(self).updated(step as int, power as int),
            final(self).max_temp == old(self).max_temp,
            final(self).cooler == old(self).cooler,
            final(self).schedule == old(self).schedule,
            old(self).schedule == CoolingSchedule::BasicExp ==> final(self).current <= old(
                self,
            ).current,
    {
        let next: u64 = match self.schedule {
            CoolingSchedule::Linear => {
                let at: u64 = if step > self.cooler.max_steps {
                    self.cooler.max_steps
                } else {
                    step
                };
                self.cooler.linear_cooling(at)
            },
            CoolingSchedule::Exponential => {
                if power < self.cooler.min_temp {
                    self.cooler.min_temp
                } else if power > self.cooler.max_temp {
                    self.cooler.max_temp
                } else {
                    power
                }
            },
            CoolingSchedule::BasicExp => self.cooler.basic_exp_cooling(self.current),
        };
        self.current = next;
    }

    /// Under the linear schedule an update at a later step never stores a
    /// higher temperature than one at an earlier step.
    pub proof fn lemma_linear_updates_fall(self, earlier: int, later: int, power_before: int, power_after: int)
        requires
            self.wf(),
            self.schedule == CoolingSchedule::Linear,
            0 <= earlier <= later,
        ensures
            self.updated(earlier, power_before) >= self.updated(later, power_after),
            self.cooler.min_temp <= self.updated(later, power_after),
            self.updated(earlier, power_before) <= self.cooler.max_temp,
    {
        self.cooler.lemma_linear_monotone(self.capped(earlier), self.capped(later));
    }
}

} // verus!
