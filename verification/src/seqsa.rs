//! Sequential simulated annealing: one chain that stops at the step limit
//! or once too many candidates in a row were rejected.

use vstd::prelude::*;
use crate::chain::{Chain, Trial};
use crate::cooler::Temperature;
use crate::energy::{Verdict, delta, improves, judge, verdict_of};
use crate::machine::{elapsed_between, precise_time_ns};
use crate::params::TunerParameter;
use crate::problem::{Host, Problem, SolverError, cool};
use crate::results::MrResult;

verus! {

/// The number of rejections since the last improvement beyond which the
/// sequential solver takes the search as converged.
pub const SEQSA_REJECTION_LIMIT: u64 = 400;

/// The sequential solver.
#[derive(Clone, Copy, Debug)]
pub struct Seqsa {
    pub tuner_params: TunerParameter,
}

impl Seqsa {
    /// Whether a chain has counted more rejections since its last
    /// improvement than the limit allows.
    pub open spec fn converged<S>(chain: Chain<S>) -> bool {
        chain.rejected > SEQSA_REJECTION_LIMIT
    }

    /// Whether the run went on through each of `trials`: no candidate that
    /// could be evaluated met a chain that had converged.
    pub open spec fn went_on<S>(self, start: Chain<S>, trials: Seq<Trial<S>>) -> bool {
        forall|k: int|
            0 <= k < trials.len() && trials[k].energy is Some ==> !Self::converged(
                #[trigger] start.replay(self.tuner_params.energy, trials.take(k)),
            )
    }

    /// What holds of the chain that a run ends on: it stopped because it
    /// had taken the configured number of steps or because it had gone one
    /// rejection past the limit, whichever came first, and it is the
    /// replay of the trials that the run went on through, as many as it
    /// took steps, from the start at some state and energy.
    pub open spec fn outcome<S>(self, chain: Chain<S>) -> bool {
        &&& chain.wf()
        &&& chain.steps <= self.tuner_params.max_step
        &&& chain.rejected <= SEQSA_REJECTION_LIMIT + 1
        &&& chain.steps == self.tuner_params.max_step || chain.rejected == SEQSA_REJECTION_LIMIT
            + 1
        &&& exists|state: S, energy: i64, trials: Seq<Trial<S>>|
            trials.len() == chain.steps && chain == #[trigger] Chain::start(state, energy).replay(
                self.tuner_params.energy,
                trials,
            ) && self.went_on(Chain::start(state, energy), trials)
    }

    /// Tests whether a chain has converged.
    pub fn has_converged<S>(chain: &Chain<S>) -> (b: bool)
        ensures
            b == Self::converged(*chain),
    {
        chain.rejected > SEQSA_REJECTION_LIMIT
    }

    /// Runs the chain and hands back its final state with its counters.
    /// Fails only where the initial state has no energy.
    pub fn anneal<P: Problem, H: Host<P::State>>(&self, problem: &mut P, host: &mut H) -> (r:
        Result<Chain<P::State>, SolverError>)
        requires
            self.tuner_params.valid(),
        ensures
            r matches Ok(chain) ==> self.outcome(chain),
            r matches Err(e) ==> e == SolverError::InfeasibleInitial,
    {
        let state = problem.initial_state();
        let measured = problem.energy(&state, 0);
        self.anneal_from(problem, host, state, measured)
    }

    /// Runs the chain and hands back the last accepted energy and state.
    /// The number of workers is not read: there is one chain.
    pub fn solve<P: Problem, H: Host<P::State>>(
        &self,
        problem: &mut P,
        host: &mut H,
        num_workers: usize,
    ) -> (r: Result<MrResult<P::State>, SolverError>)
        requires
            self.tuner_params.valid(),
        ensures
            r matches Ok(best) ==> exists|chain: Chain<P::State>|
                #[trigger] self.outcome(chain) && best.energy == chain.energy && best.state
                    == chain.state,
            r matches Err(e) ==> e == SolverError::InfeasibleInitial,
    {
        match self.anneal(problem, host) {
            Ok(chain) => {
                Ok(MrResult { energy: chain.energy, state: chain.state })
            },
            Err(e) => Err(e),
        }
    }
}

impl Seqsa {
    /// A run in which every candidate is evaluated and turned down takes
    /// exactly as many steps as it counts rejections, so it ends after the
    /// configured number of steps or after one step more than the
    /// rejection limit, whichever is smaller.
    pub proof fn lemma_all_rejected_stops_early<S>(
        self,
        state: S,
        energy: i64,
        trials: Seq<Trial<S>>,
    )
        requires
            self.tuner_params.valid(),
            self.outcome(Chain::start(state, energy).replay(self.tuner_params.energy, trials)),
            trials.len() <= u64::MAX,
            forall|i: int|
                0 <= i < trials.len() ==> (#[trigger] trials[i]).energy is Some && verdict_of(
                    self.tuner_params.energy,
                    energy as int,
                    trials[i].energy->Some_0 as int,
                    trials[i].draw,
                ) == Verdict::Rejected,
        ensures
            trials.len() <= self.tuner_params.max_step,
            trials.len() <= SEQSA_REJECTION_LIMIT + 1,
            trials.len() == self.tuner_params.max_step || trials.len() == SEQSA_REJECTION_LIMIT
                + 1,
            Chain::start(state, energy).replay(self.tuner_params.energy, trials).accepted == 0,
            Chain::start(state, energy).replay(self.tuner_params.energy, trials).state == state,
            Chain::start(state, energy).replay(self.tuner_params.energy, trials).energy == energy,
    {
        Chain::start(state, energy).lemma_rejections_accumulate(self.tuner_params.energy, trials);
    }

    /// A run in which no candidate can be evaluated accepts nothing and
    /// ends on the state and energy that it started from, after the
    /// configured number of steps.
    pub proof fn lemma_all_skipped_returns_start<S>(
        self,
        state: S,
        energy: i64,
        trials: Seq<Trial<S>>,
    )
        requires
            self.tuner_params.valid(),
            self.outcome(Chain::start(state, energy).replay(self.tuner_params.energy, trials)),
            trials.len() <= u64::MAX,
            forall|i: int| 0 <= i < trials.len() ==> (#[trigger] trials[i]).energy is None,
        ensures
            trials.len() == self.tuner_params.max_step,
            Chain::start(state, energy).replay(self.tuner_params.energy, trials).accepted == 0,
            Chain::start(state, energy).replay(self.tuner_params.energy, trials).state == state,
            Chain::start(state, energy).replay(self.tuner_params.energy, trials).energy == energy,
    {
        Chain::start(state, energy).lemma_infeasible_steps_keep_chain(
            self.tuner_params.energy,
            trials,
        );
    }
}

impl Seqsa {
    /// What holds of the chain that a run from `state` at `energy` ends on:
    /// it stopped because it had taken the configured number of steps or
    /// because it had gone one rejection past the limit, whichever came
    /// first, and it is the replay of the trials that the run went on
    /// through, as many as it took steps, from the start at `state` and
    /// `energy`.
    pub open spec fn outcome_from<S>(self, state: S, energy: i64, chain: Chain<S>) -> bool {
        &&& chain.wf()
        &&& chain.steps <= self.tuner_params.max_step
        &&& chain.rejected <= SEQSA_REJECTION_LIMIT + 1
        &&& chain.steps == self.tuner_params.max_step || chain.rejected == SEQSA_REJECTION_LIMIT
            + 1
        &&& exists|trials: Seq<Trial<S>>|
            trials.len() == chain.steps && chain == #[trigger] Chain::start(state, energy).replay(
                self.tuner_params.energy,
                trials,
            ) && self.went_on(Chain::start(state, energy), trials)
    }

    /// Runs the chain from `state`, for which the problem has measured
    /// `measured`. Where there is no energy the run fails; where there is
    /// one the run succeeds, and the chain that it ends on started at that
    /// state and energy.
    pub fn anneal_from<P: Problem, H: Host<P::State>>(
        &self,
        problem: &mut P,
        host: &mut H,
        state: P::State,
        measured: Option<i64>,
    ) -> (r: Result<Chain<P::State>, SolverError>)
        requires
            self.tuner_params.valid(),
        ensures
            measured is None ==> r is Err && r->Err_0 == SolverError::InfeasibleInitial,
            measured matches Some(energy) ==> r is Ok && self.outcome_from(state, energy, r->Ok_0),
            r matches Ok(chain) ==> self.outcome(chain),
    {
        let kind = self.tuner_params.energy;
        let max_step: u64 = self.tuner_params.max_step;
        let energy: i64 = match measured {
            Some(nrg) => nrg,
            None => {
                return Err(SolverError::InfeasibleInitial);
            },
        };
        let mut temperature = Temperature::new(self.tuner_params.cooler(), self.tuner_params.cooling);
        let mut chain = Chain::new(state, energy);
        let ghost start = chain;
        let ghost mut trials: Seq<Trial<P::State>> = Seq::empty();
        let mut step: u64 = 0;
        let mut last_nrg: i64 = energy;
        let start_time: u64 = precise_time_ns();
        while step < max_step
            invariant
                self.tuner_params.valid(),
                kind == self.tuner_params.energy,
                max_step == self.tuner_params.max_step,
                temperature.wf(),
                chain.wf(),
                chain.steps == step,
                step <= max_step,
                chain.rejected <= SEQSA_REJECTION_LIMIT + 1,
                trials.len() == step,
                start == Chain::start(state, energy),
                chain == start.replay(kind, trials),
                self.went_on(start, trials),
            ensures
                step == max_step || chain.rejected == SEQSA_REJECTION_LIMIT + 1,
            decreases max_step - step,
        {
            let elapsed_time: u64 = elapsed_between(start_time, precise_time_ns());
            let next_state = problem.new_state(&chain.state, max_step, step);
            match problem.energy(&next_state, 0) {
                Some(new_energy) => {
                    last_nrg = new_energy;
                    if Self::has_converged(&chain) {
                        break ;
                    }
                    let draw: bool = if improves(kind, chain.energy, new_energy) {
                        false
                    } else {
                        host.draw(delta(kind, chain.energy, new_energy), temperature.get(), 0)
                    };
                    if judge(kind, chain.energy, new_energy, draw).is_accept() {
                        host.send_update(
                            temperature.get(),
                            elapsed_time,
                            new_energy,
                            &next_state,
                            new_energy,
                            &next_state,
                            step,
                            0,
                        );
                    } else {
                        host.send_update(
                            temperature.get(),
                            elapsed_time,
                            new_energy,
                            &next_state,
                            chain.energy,
                            &chain.state,
                            step,
                            0,
                        );
                    }
                    proof {
                        let trial = Trial { candidate: next_state, energy: Some(new_energy), draw };
                        start.lemma_replay_push(kind, trials, trial);
                        start.lemma_take_of_push(kind, trials, trial);
                        trials = trials.push(trial);
                    }
                    chain.advance(kind, next_state, new_energy, draw);
                },
                None => {
                    host.send_update(
                        temperature.get(),
                        elapsed_time,
                        last_nrg,
                        &next_state,
                        chain.energy,
                        &chain.state,
                        step,
                        0,
                    );
                    proof {
                        let trial = Trial { candidate: next_state, energy: None, draw: false };
                        start.lemma_replay_push(kind, trials, trial);
                        start.lemma_take_of_push(kind, trials, trial);
                        trials = trials.push(trial);
                    }
                    chain.skip();
                },
            }
            cool(host, &mut temperature, step);
            step = step + 1;
        }
        Ok(chain)
    }
}

} // verus!
