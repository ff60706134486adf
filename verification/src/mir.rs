//! Multiple independent runs: one chain per worker, each from a starting
//! state of its own, and the best of their outcomes.

use vstd::prelude::*;
use vstd::pervasive::unreached;
use crate::chain::{Chain, Trial};
use crate::cooler::Temperature;
use crate::energy::{delta, improves, judge};
use crate::machine::{elapsed_between, precise_time_ns};
use crate::params::TunerParameter;
use crate::pool::StatesPool;
use crate::problem::{Host, Problem, SolverError, cool};
use crate::results::{MrResult, ThreadsResults, best_of, winner};

verus! {

/// The number of rejections since the last improvement beyond which a
/// worker takes its search as converged.
pub const MIR_REJECTION_LIMIT: u64 = 300;

/// The solver of multiple independent runs.
#[derive(Clone, Copy, Debug)]
pub struct Mir {
    pub tuner_params: TunerParameter,
}

impl Mir {
    /// The solver is valid with valid parameters and a number of steps
    /// that leaves the step counter room for the one step that a worker
    /// takes past it.
    pub open spec fn valid(self) -> bool {
        self.tuner_params.valid() && self.tuner_params.max_step < u64::MAX
    }

    /// Tests whether the solver is valid.
    pub fn is_valid(&self) -> (b: bool)
        ensures
            b == self.valid(),
    {
        self.tuner_params.is_valid() && self.tuner_params.max_step < u64::MAX
    }

    /// Whether a chain is past the configured number of steps or past the
    /// limit of rejections since its last improvement.
    pub open spec fn finished<S>(self, chain: Chain<S>) -> bool {
        chain.steps > self.tuner_params.max_step || chain.rejected > MIR_REJECTION_LIMIT
    }

    /// Whether the worker went on through each of `trials`: none of them
    /// met a chain that had finished.
    pub open spec fn went_on<S>(self, start: Chain<S>, trials: Seq<Trial<S>>) -> bool {
        forall|k: int|
            0 <= k < trials.len() ==> !self.finished(
                #[trigger] start.replay(self.tuner_params.energy, trials.take(k)),
            )
    }

    /// Tests whether a chain has finished.
    pub fn has_finished<S>(&self, chain: &Chain<S>) -> (b: bool)
        ensures
            b == self.finished(*chain),
    {
        chain.steps > self.tuner_params.max_step || chain.rejected > MIR_REJECTION_LIMIT
    }

    /// What holds of the chain that a worker ends on: it has finished, one
    /// step past the configured number or one rejection past the limit,
    /// and it is the replay of the trials that the worker went on through,
    /// as many as it took steps, from the start at `state` and some
    /// energy.
    pub open spec fn worker_outcome<S>(self, state: S, chain: Chain<S>) -> bool {
        &&& chain.wf()
        &&& chain.steps <= self.tuner_params.max_step + 1
        &&& chain.rejected <= MIR_REJECTION_LIMIT + 1
        &&& chain.steps == self.tuner_params.max_step + 1 || chain.rejected == MIR_REJECTION_LIMIT
            + 1
        &&& self.finished(chain)
        &&& exists|energy: i64, trials: Seq<Trial<S>>|
            trials.len() == chain.steps && chain == #[trigger] Chain::start(state, energy).replay(
                self.tuner_params.energy,
                trials,
            ) && self.went_on(Chain::start(state, energy), trials)
    }

    /// Whether `result` is the energy and state that the chain of some
    /// worker ended on.
    pub open spec fn worker_result<S>(self, result: MrResult<S>) -> bool {
        exists|state: S, chain: Chain<S>|
            #[trigger] self.worker_outcome(state, chain) && result.energy == chain.energy
                && result.state == chain.state
    }

    /// What holds of the results that the workers contribute: there is one
    /// for each worker, and each is what the chain of a worker ended on.
    pub open spec fn run_outcome<S>(self, num_workers: usize, results: Seq<MrResult<S>>) -> bool {
        &&& results.len() == num_workers
        &&& forall|w: int| 0 <= w < results.len() ==> self.worker_result(#[trigger] results[w])
    }

    /// Fills the pool of starting states: the initial state of the
    /// problem, then a random state for each further worker.
    pub fn seed_pool<P: Problem>(problem: &mut P, num_workers: usize) -> (pool: StatesPool<
        P::State,
    >)
        ensures
            num_workers >= 1 ==> pool@.len() == num_workers,
            num_workers == 0 ==> pool@.len() == 1,
    {
        let mut pool = StatesPool::new();
        pool.push(problem.initial_state());
        let mut i: usize = 1;
        while i < num_workers
            invariant
                1 <= i,
                num_workers >= 1 ==> i <= num_workers,
                num_workers == 0 ==> i == 1,
                pool@.len() == i,
            decreases num_workers - i,
        {
            pool.push(problem.rand_state());
            i = i + 1;
        }
        pool
    }

    /// Runs the chain of one worker from `state` until it has gone past
    /// the step limit or the rejection limit. Fails only where `state` has
    /// no energy.
    pub fn run_worker<P: Problem, H: Host<P::State>>(
        &self,
        problem: &mut P,
        host: &mut H,
        worker: usize,
        state: P::State,
    ) -> (r: Result<Chain<P::State>, SolverError>)
        requires
            self.valid(),
        ensures
            r matches Ok(chain) ==> self.worker_outcome(state, chain),
            r matches Err(e) ==> e == SolverError::InfeasibleInitial,
    {
        let start_time: u64 = precise_time_ns();
        let measured = problem.energy(&state, worker);
        self.run_worker_from(problem, host, worker, state, measured, start_time)
    }

    /// Runs the workers one after the other, each on a copy of the problem
    /// and from a starting state of its own, and returns the result of
    /// every worker in the order of the workers. Fails only where the
    /// starting state of some worker has no energy.
    pub fn run_workers<P: Problem + Clone, H: Host<P::State>>(
        &self,
        problem: &mut P,
        host: &mut H,
        num_workers: usize,
    ) -> (r: Result<ThreadsResults<P::State>, SolverError>)
        requires
            self.valid(),
            num_workers >= 1,
        ensures
            r matches Ok(results) ==> self.run_outcome(num_workers, results@),
            r matches Err(e) ==> e == SolverError::InfeasibleInitial,
    {
        let mut pool = Self::seed_pool(problem, num_workers);
        let mut results: ThreadsResults<P::State> = ThreadsResults::new();
        let mut worker: usize = 0;
        while worker < num_workers
            invariant
                self.valid(),
                worker <= num_workers,
                pool@.len() == num_workers - worker,
                self.run_outcome(worker, results@),
            decreases num_workers - worker,
        {
            let state = match pool.remove_one() {
                Some(state) => state,
                None => unreached(),
            };
            let mut own = problem.clone();
            match self.run_worker(&mut own, host, worker, state) {
                Ok(chain) => {
                    let ghost before = results@;
                    let ghost end = chain;
                    results.push(MrResult { energy: chain.energy, state: chain.state });
                    proof {
                        assert forall|w: int| 0 <= w < results@.len() implies self.worker_result(
                            #[trigger] results@[w],
                        ) by {
                            if w < before.len() {
                                assert(results@[w] == before[w]);
                            } else {
                                assert(self.worker_outcome(state, end));
                            }
                        }
                    }
                },
                Err(e) => {
                    return Err(e);
                },
            }
            worker = worker + 1;
        }
        Ok(results)
    }

    /// Runs the workers and returns the best of their results.
    pub fn solve<P: Problem + Clone, H: Host<P::State>>(
        &self,
        problem: &mut P,
        host: &mut H,
        num_workers: usize,
    ) -> (r: Result<MrResult<P::State>, SolverError>)
        requires
            self.valid(),
            num_workers >= 1,
        ensures
            r matches Ok(best) ==> exists|results: Seq<MrResult<P::State>>|
                #[trigger] self.run_outcome(num_workers, results) && best == results[winner(
                    self.tuner_params.energy,
                    results,
                )],
            r matches Err(e) ==> e == SolverError::InfeasibleInitial,
    {
        match self.run_workers(problem, host, num_workers) {
            Ok(results) => {
                Ok(best_of(self.tuner_params.energy, results.get_coll()))
            },
            Err(e) => Err(e),
        }
    }
}

impl Mir {
    /// With one worker the reduction returns what the chain of that worker
    /// ended on: the run is a single chain, as in the sequential solver,
    /// but for the limits at which it stops.
    pub proof fn lemma_single_worker_is_its_chain<S>(self, results: Seq<MrResult<S>>)
        requires
            self.run_outcome(1, results),
        ensures
            winner(self.tuner_params.energy, results) == 0,
            self.worker_result(results[winner(self.tuner_params.energy, results)]),
    {
    }
}

impl Mir {
    /// What holds of the chain that a worker from `state` at `energy` ends
    /// on: it has finished, one step past the configured number or one
    /// rejection past the limit, and it is the replay of the trials that
    /// the worker went on through, as many as it took steps, from the
    /// start at `state` and `energy`.
    pub open spec fn worker_outcome_from<S>(self, state: S, energy: i64, chain: Chain<S>) -> bool {
        &&& chain.wf()
        &&& chain.steps <= self.tuner_params.max_step + 1
        &&& chain.rejected <= MIR_REJECTION_LIMIT + 1
        &&& chain.steps == self.tuner_params.max_step + 1 || chain.rejected == MIR_REJECTION_LIMIT
            + 1
        &&& self.finished(chain)
        &&& exists|trials: Seq<Trial<S>>|
            trials.len() == chain.steps && chain == #[trigger] Chain::start(state, energy).replay(
                self.tuner_params.energy,
                trials,
            ) && self.went_on(Chain::start(state, energy), trials)
    }

    /// Runs the chain of one worker from `state`, for which the problem
    /// has measured `measured`; `start_time` is the clock reading that the
    /// elapsed time of each observation is counted from. Where there is no
    /// energy the worker fails; where there is one it succeeds, and the
    /// chain that it ends on started at that state and energy.
    pub fn run_worker_from<P: Problem, H: Host<P::State>>(
        &self,
        problem: &mut P,
        host: &mut H,
        worker: usize,
        state: P::State,
        measured: Option<i64>,
        start_time: u64,
    ) -> (r: Result<Chain<P::State>, SolverError>)
        requires
            self.valid(),
        ensures
            measured is None ==> r is Err && r->Err_0 == SolverError::InfeasibleInitial,
            measured matches Some(energy) ==> r is Ok && self.worker_outcome_from(
                state,
                energy,
                r->Ok_0,
            ),
            r matches Ok(chain) ==> self.worker_outcome(state, chain),
    {
        let kind = self.tuner_params.energy;
        let max_step: u64 = self.tuner_params.max_step;
        let energy: i64 = match measured {
            Some(nrg) => nrg,
            None => {
                return Err(SolverError::InfeasibleInitial);
            },
        };
        let mut temperature = Temperature::new(self.tuner_params.cooler(), self.tuner_params.cooling);
        let mut last_nrg: i64 = energy;
        let mut chain = Chain::new(state, energy);
        let ghost start = chain;
        let ghost mut trials: Seq<Trial<P::State>> = Seq::empty();
        while !self.has_finished(&chain)
            invariant
                self.valid(),
                kind == self.tuner_params.energy,
                max_step == self.tuner_params.max_step,
                temperature.wf(),
                chain.wf(),
                chain.steps <= max_step + 1,
                chain.rejected <= MIR_REJECTION_LIMIT + 1,
                trials.len() == chain.steps,
                start == Chain::start(state, energy),
                chain == start.replay(kind, trials),
                self.went_on(start, trials),
            decreases max_step + 1 - chain.steps,
        {
            let elapsed_time: u64 = elapsed_between(start_time, precise_time_ns());
            let next_state = problem.new_state(&chain.state, max_step, chain.steps);
            match problem.energy(&next_state, worker) {
                Some(new_energy) => {
                    last_nrg = new_energy;
                    let draw: bool = if improves(kind, chain.energy, new_energy) {
                        false
                    } else {
                        host.draw(delta(kind, chain.energy, new_energy), temperature.get(), worker)
                    };
                    if judge(kind, chain.energy, new_energy, draw).is_accept() {
                        host.send_update(
                            temperature.get(),
                            elapsed_time,
                            last_nrg,
                            &chain.state,
                            new_energy,
                            &next_state,
                            chain.steps,
                            worker,
                        );
                    } else {
                        host.send_update(
                            temperature.get(),
                            elapsed_time,
                            last_nrg,
                            &chain.state,
                            chain.energy,
                            &chain.state,
                            chain.steps,
                            worker,
                        );
                    }
                    proof {
                        let trial = Trial { candidate: next_state, energy: Some(new_energy), draw };
                        start.lemma_replay_push(kind, trials, trial);
                        start.lemma_take_of_push(kind, trials, trial);
                        trials = trials.push(trial);
                    }
                    chain.advance(kind, next_state, new_energy, draw);
                },
                None => {
                    host.send_update(
                        temperature.get(),
                        elapsed_time,
                        last_nrg,
                        &chain.state,
                        chain.energy,
                        &chain.state,
                        chain.steps,
                        worker,
                    );
                    proof {
                        let trial = Trial { candidate: next_state, energy: None, draw: false };
                        start.lemma_replay_push(kind, trials, trial);
                        start.lemma_take_of_push(kind, trials, trial);
                        trials = trials.push(trial);
                    }
                    chain.skip();
                },
            }
            cool(host, &mut temperature, chain.steps);
        }
        Ok(chain)
    }
}

} // verus!
