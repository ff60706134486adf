//! Simultaneous periodically interacting searchers: rounds in which the
//! workers explore the neighbourhood of a common master state, each round
//! followed by the choice of the next master.

use vstd::prelude::*;
use crate::cooler::{CoolingSchedule, StepsCooler, Temperature};
use crate::machine::{elapsed_between, physical_cores, precise_time_ns};
use crate::energy::{EnergyType, delta, improves, judge, signed_delta, verdict_of};
use crate::pool::{NeighborhoodsPool, SharedCounter};
use crate::problem::{Host, Problem, SolverError, cool};
use crate::results::{
    MrResult, ThreadsResults, best_of, lemma_winner_is_best, lemma_winner_keeps_master, winner,
};

verus! {

/// The count of rejections at which a worker leaves its round.
pub const SPIS_REJECTION_EXIT: u64 = 50;

/// The counters that all workers of a run share.
#[derive(Clone, Copy, Debug, PartialEq, Eq, Structural)]
pub struct RoundCounters {
    /// How many candidates were dealt with, over all rounds.
    pub elapsed_steps: SharedCounter,
    /// How many candidates were accepted, over all rounds.
    pub accepted: SharedCounter,
    /// How many candidates were rejected since any worker last accepted
    /// one.
    pub rejected: SharedCounter,
}

/// What a worker does after it has dealt with a candidate.
#[derive(Clone, Copy, Debug, PartialEq, Eq, Structural)]
pub enum Settled {
    /// The candidate could not be evaluated; the worker keeps its state.
    Skipped,
    /// The worker moves to the candidate.
    Accepted,
    /// The worker keeps its state and goes on.
    Rejected,
    /// The worker keeps its state and leaves the round.
    Exhausted,
}

impl RoundCounters {
    /// The counters after a worker at energy `current` has dealt with a
    /// candidate: an accept of either sort adds one to the accepted and
    /// clears the rejected, a rejection adds one to the rejected, and a
    /// candidate without energy touches neither. The elapsed steps are
    /// counted apart, by `tick`.
    pub open spec fn settled(
        self,
        kind: EnergyType,
        current: i64,
        candidate: Option<i64>,
        draw: bool,
    ) -> Self {
        match candidate {
            None => self,
            Some(e) => if verdict_of(kind, current as int, e as int, draw).accepts() {
                RoundCounters {
                    accepted: SharedCounter { value: SharedCounter::bumped(self.accepted.value) },
                    rejected: SharedCounter { value: 0 },
                    ..self
                }
            } else {
                RoundCounters {
                    rejected: SharedCounter { value: SharedCounter::bumped(self.rejected.value) },
                    ..self
                }
            },
        }
    }

    /// What the worker does after that candidate: it leaves the round on
    /// the rejection that brings the shared count to the exit value.
    pub open spec fn settlement(
        self,
        kind: EnergyType,
        current: i64,
        candidate: Option<i64>,
        draw: bool,
    ) -> Settled {
        match candidate {
            None => Settled::Skipped,
            Some(e) => if verdict_of(kind, current as int, e as int, draw).accepts() {
                Settled::Accepted
            } else if SharedCounter::bumped(self.rejected.value) == SPIS_REJECTION_EXIT {
                Settled::Exhausted
            } else {
                Settled::Rejected
            },
        }
    }

    /// The counters after one more step has elapsed.
    pub open spec fn ticked(self) -> Self {
        RoundCounters {
            elapsed_steps: SharedCounter { value: SharedCounter::bumped(self.elapsed_steps.value) },
            ..self
        }
    }

    /// Counters at zero.
    pub open spec fn zero() -> Self {
        RoundCounters {
            elapsed_steps: SharedCounter { value: 0 },
            accepted: SharedCounter { value: 0 },
            rejected: SharedCounter { value: 0 },
        }
    }

    /// Counters at zero.
    pub fn new() -> (c: Self)
        ensures
            c == Self::zero(),
    {
        RoundCounters {
            elapsed_steps: SharedCounter::new(),
            accepted: SharedCounter::new(),
            rejected: SharedCounter::new(),
        }
    }

    /// Applies the acceptance rule to a candidate of a worker at energy
    /// `current`, keeps the shared counters and says what the worker does
    /// next.
    pub fn settle(&mut self, kind: EnergyType, current: i64, candidate: Option<i64>, draw: bool) -> (s:
        Settled)
        ensures
            *final(self) == old(self).settled(kind, current, candidate, draw),
            s == old(self).settlement(kind, current, candidate, draw),
    {
        match candidate {
            None => Settled::Skipped,
            Some(new_energy) => {
                if judge(kind, current, new_energy, draw).is_accept() {
                    self.accepted.increment();
                    self.rejected.reset();
                    Settled::Accepted
                } else {
                    self.rejected.increment();
                    if self.rejected.get() == SPIS_REJECTION_EXIT {
                        Settled::Exhausted
                    } else {
                        Settled::Rejected
                    }
                }
            },
        }
    }

    /// Counts one candidate that a worker has dealt with and stays in the
    /// round for.
    pub fn tick(&mut self) -> (elapsed: u64)
        ensures
            *final(self) == old(self).ticked(),
            elapsed == final(self).elapsed_steps.value,
    {
        self.elapsed_steps.increment();
        self.elapsed_steps.get()
    }
}

/// What a worker met on one candidate: its energy, if it could be
/// evaluated, and the outcome of the random test.
pub struct Glimpse {
    pub energy: Option<i64>,
    pub draw: bool,
}

/// Where a worker stands within a round.
pub struct Search<S> {
    /// The energy and state that the worker is at.
    pub worker: MrResult<S>,
    /// The shared counters as the worker left them.
    pub counters: RoundCounters,
    /// How many candidates the worker has taken out of the pool.
    pub taken: usize,
    /// Whether the worker has left the round before the pool was empty.
    pub left: bool,
}

impl<S> Search<S> {
    /// A worker that has taken no candidate yet.
    pub open spec fn begin(worker: MrResult<S>, counters: RoundCounters) -> Self {
        Search { worker, counters, taken: 0, left: false }
    }

    /// The search after the worker has taken the next candidate from the
    /// end of `pool` and met `glimpse` on it. An accept moves the worker
    /// to the candidate. The step is counted unless the worker leaves on
    /// it.
    pub open spec fn after(self, kind: EnergyType, pool: Seq<S>, glimpse: Glimpse) -> Self {
        let candidate = pool[pool.len() - 1 - self.taken];
        let counters = self.counters.settled(kind, self.worker.energy, glimpse.energy, glimpse.draw);
        let taken = (self.taken + 1) as usize;
        match self.counters.settlement(kind, self.worker.energy, glimpse.energy, glimpse.draw) {
            Settled::Exhausted => Search { worker: self.worker, counters, taken, left: true },
            Settled::Accepted => Search {
                worker: MrResult { energy: glimpse.energy->Some_0, state: candidate },
                counters: counters.ticked(),
                taken,
                left: false,
            },
            _ => Search { worker: self.worker, counters: counters.ticked(), taken, left: false },
        }
    }

    /// The search after a sequence of candidates.
    pub open spec fn replay(self, kind: EnergyType, pool: Seq<S>, seen: Seq<Glimpse>) -> Self
        decreases seen.len(),
    {
        if seen.len() == 0 {
            self
        } else {
            self.replay(kind, pool, seen.drop_last()).after(kind, pool, seen.last())
        }
    }

    /// Replaying one more candidate is the step taken after the replay of
    /// the others.
    pub proof fn lemma_replay_push(
        self,
        kind: EnergyType,
        pool: Seq<S>,
        seen: Seq<Glimpse>,
        glimpse: Glimpse,
    )
        ensures
            self.replay(kind, pool, seen.push(glimpse)) == self.replay(kind, pool, seen).after(
                kind,
                pool,
                glimpse,
            ),
    {
        assert(seen.push(glimpse).drop_last() =~= seen);
    }

    /// The replay of a prefix of what was seen is not changed by a further
    /// candidate.
    pub proof fn lemma_take_of_push(
        self,
        kind: EnergyType,
        pool: Seq<S>,
        seen: Seq<Glimpse>,
        glimpse: Glimpse,
    )
        ensures
            forall|k: int|
                0 <= k <= seen.len() ==> self.replay(
                    kind,
                    pool,
                    #[trigger] seen.push(glimpse).take(k),
                ) == self.replay(kind, pool, seen.take(k)),
            self.replay(kind, pool, seen.take(seen.len() as int)) == self.replay(kind, pool, seen),
    {
        assert forall|k: int| 0 <= k <= seen.len() implies self.replay(
            kind,
            pool,
            #[trigger] seen.push(glimpse).take(k),
        ) == self.replay(kind, pool, seen.take(k)) by {
            assert(seen.push(glimpse).take(k) =~= seen.take(k));
        }
        assert(seen.take(seen.len() as int) =~= seen);
    }

    /// A worker that meets no candidate that it accepts ends on the
    /// energy and state that it began with.
    pub proof fn lemma_no_accept_keeps_worker(
        self,
        kind: EnergyType,
        pool: Seq<S>,
        seen: Seq<Glimpse>,
    )
        requires
            forall|i: int|
                0 <= i < seen.len() ==> ((#[trigger] seen[i]).energy matches Some(e)
                    ==> !verdict_of(kind, self.worker.energy as int, e as int, seen[i].draw).accepts()),
        ensures
            self.replay(kind, pool, seen).worker == self.worker,
            self.replay(kind, pool, seen).counters.accepted == self.counters.accepted,
        decreases seen.len(),
    {
        if seen.len() > 0 {
            self.lemma_no_accept_keeps_worker(kind, pool, seen.drop_last());
        }
    }
}

/// The part of one worker in a round, as the round went: where the worker
/// began, the shared counters and the pool that it found, what it met and
/// where it ended.
pub struct Turn<S> {
    pub begin: MrResult<S>,
    pub counters: RoundCounters,
    pub pool: Seq<S>,
    pub seen: Seq<Glimpse>,
    pub end: Search<S>,
}

impl<S> Turn<S> {
    /// The pool as the worker left it: the pool that it found less the
    /// candidates that it took from the end.
    pub open spec fn pool_left(self) -> Seq<S> {
        self.pool.take(self.pool.len() - self.end.taken)
    }

    /// Where the workers of these turns ended, in the order of the turns.
    pub open spec fn ends(turns: Seq<Self>) -> Seq<MrResult<S>> {
        Seq::new(turns.len(), |i: int| turns[i].end.worker)
    }
}

/// One round, as the search went: the master and the shared counters that
/// the round began with, the neighbourhood of that master and the turns of
/// the workers.
pub struct Round<S> {
    pub master: MrResult<S>,
    pub counters: RoundCounters,
    pub neigh: Seq<S>,
    pub turns: Seq<Turn<S>>,
}

impl<S> Round<S> {
    /// The master that the round hands on: the best of where its workers
    /// ended.
    pub open spec fn next_master(self, kind: EnergyType) -> MrResult<S> {
        Turn::ends(self.turns)[winner(kind, Turn::ends(self.turns))]
    }

    /// The shared counters as the last worker of the round left them.
    pub open spec fn counters_left(self) -> RoundCounters {
        self.turns.last().end.counters
    }

    /// Whether the round counted a step.
    pub open spec fn moved(self) -> bool {
        self.counters_left().elapsed_steps.value != self.counters.elapsed_steps.value
    }
}

/// The solver of simultaneous periodically interacting searchers.
#[derive(Clone, Copy, Debug)]
pub struct Spis {
    pub min_temp: u64,
    pub max_temp: u64,
    pub max_steps: usize,
    pub cooling_schedule: CoolingSchedule,
    pub energy_type: EnergyType,
}

impl Spis {
    /// The parameters are valid with at least one step and a positive
    /// lowest temperature that does not exceed the highest.
    pub open spec fn valid(self) -> bool {
        &&& self.max_steps >= 1
        &&& 0 < self.min_temp <= self.max_temp
    }

    /// Tests whether the parameters are valid.
    pub fn is_valid(&self) -> (b: bool)
        ensures
            b == self.valid(),
    {
        self.max_steps >= 1 && 0 < self.min_temp && self.min_temp <= self.max_temp
    }

    /// What holds of the part of one worker in a round that began at
    /// `begin` with the shared counters at `counters` and the pool at
    /// `pool`: the worker ends where the replay of what it met on `seen`
    /// ends, it took one candidate for each entry of `seen` from the end
    /// of the pool, and it stopped on an empty pool or on the rejection
    /// that made it leave, not before.
    pub open spec fn explored<S>(
        self,
        begin: MrResult<S>,
        counters: RoundCounters,
        pool: Seq<S>,
        seen: Seq<Glimpse>,
        end: Search<S>,
    ) -> bool {
        &&& end == Search::begin(begin, counters).replay(self.energy_type, pool, seen)
        &&& seen.len() == end.taken
        &&& end.taken <= pool.len()
        &&& end.left || end.taken == pool.len()
        &&& forall|k: int|
            0 <= k < seen.len() ==> !(#[trigger] Search::begin(begin, counters).replay(
                self.energy_type,
                pool,
                seen.take(k),
            )).left
    }

    /// The part of one worker in a round: from the master state it takes
    /// candidates out of the pool until the pool is empty or the shared
    /// count of rejections reaches the exit value, and hands back where it
    /// stands then. The pool loses the candidates taken, from its end; the
    /// state handed back is the one the worker began with or one of those
    /// candidates. `start_time` is the clock reading that the elapsed time
    /// of each observation is counted from.
    pub fn explore<P: Problem, H: Host<P::State>>(
        &self,
        problem: &mut P,
        host: &mut H,
        core: usize,
        begin: MrResult<P::State>,
        pool: &mut NeighborhoodsPool<P::State>,
        counters: &mut RoundCounters,
        temperature: &mut Temperature,
        start_time: u64,
    ) -> (r: MrResult<P::State>)
        requires
            old(temperature).wf(),
        ensures
            final(temperature).wf(),
            final(temperature).cooler == old(temperature).cooler,
            final(temperature).schedule == old(temperature).schedule,
            final(pool)@.len() <= old(pool)@.len(),
            final(pool)@ == old(pool)@.take(final(pool)@.len() as int),
            final(pool)@.len() == 0 || final(counters).rejected.value == SPIS_REJECTION_EXIT,
            exists|seen: Seq<Glimpse>, left: bool|
                #[trigger] self.explored(
                    begin,
                    *old(counters),
                    old(pool)@,
                    seen,
                    (Search {
                        worker: r,
                        counters: *final(counters),
                        taken: (old(pool)@.len() - final(pool)@.len()) as usize,
                        left,
                    }),
                ),
            final(counters).elapsed_steps.value >= old(counters).elapsed_steps.value,
            old(pool)@.len() == 0 ==> r == begin && *final(counters) == *old(counters),
            r.state == begin.state || exists|i: int|
                final(pool)@.len() <= i < old(pool)@.len() && r.state == old(pool)@[i],
            final(counters).elapsed_steps.value == old(counters).elapsed_steps.value && old(
                counters,
            ).elapsed_steps.value < u64::MAX ==> r == begin,
    {
        let kind = self.energy_type;
        let mut worker = begin;
        let mut last_nrg: i64 = worker.energy;
        let ghost whole = pool@;
        let ghost start = Search::begin(begin, *counters);
        let size: usize = pool.size();
        let ghost mut seen: Seq<Glimpse> = Seq::empty();
        let ghost mut left: bool = false;
        loop
            invariant_except_break
                !left,
            invariant
                kind == self.energy_type,
                temperature.wf(),
                temperature.cooler == old(temperature).cooler,
                temperature.schedule == old(temperature).schedule,
                whole == old(pool)@,
                start == Search::begin(begin, *old(counters)),
                pool@.len() <= whole.len(),
                pool@ == whole.take(pool@.len() as int),
                counters.elapsed_steps.value >= old(counters).elapsed_steps.value,
                pool@.len() == whole.len() ==> worker == begin && *counters == *old(counters),
                worker.state == begin.state || exists|i: int|
                    pool@.len() <= i < whole.len() && worker.state == whole[i],
                counters.elapsed_steps.value == old(counters).elapsed_steps.value && old(
                    counters,
                ).elapsed_steps.value < u64::MAX ==> worker == begin,
                seen.len() + pool@.len() == whole.len(),
                whole.len() == size,
                start.replay(kind, whole, seen) == (Search {
                    worker,
                    counters: *counters,
                    taken: seen.len() as usize,
                    left,
                }),
                forall|k: int|
                    0 <= k < seen.len() ==> !(#[trigger] start.replay(kind, whole, seen.take(k))).left,
            ensures
                left || pool@.len() == 0,
                pool@.len() == 0 || counters.rejected.value == SPIS_REJECTION_EXIT,
            decreases pool@.len(),
        {
            let next_state = match pool.remove_one() {
                Some(res) => res,
                None => {
                    break ;
                },
            };
            assert(pool@ =~= whole.take(pool@.len() as int));
            assert(next_state == whole[pool@.len() as int]);
            let candidate = problem.energy(&next_state, core);
            let draw: bool = match candidate {
                Some(new_energy) => if improves(kind, worker.energy, new_energy) {
                    false
                } else {
                    host.draw(delta(kind, worker.energy, new_energy), temperature.get(), core)
                },
                None => false,
            };
            let elapsed_time: u64 = elapsed_between(start_time, precise_time_ns());
            match candidate {
                Some(new_energy) => {
                    last_nrg = new_energy;
                    if judge(kind, worker.energy, new_energy, draw).is_accept() {
                        host.send_update(
                            temperature.get(),
                            elapsed_time,
                            last_nrg,
                            &next_state,
                            new_energy,
                            &next_state,
                            counters.elapsed_steps.get(),
                            core,
                        );
                    } else {
                        host.send_update(
                            temperature.get(),
                            elapsed_time,
                            last_nrg,
                            &next_state,
                            worker.energy,
                            &worker.state,
                            counters.elapsed_steps.get(),
                            core,
                        );
                    }
                },
                None => {
                    host.send_update(
                        temperature.get(),
                        elapsed_time,
                        last_nrg,
                        &next_state,
                        worker.energy,
                        &worker.state,
                        counters.elapsed_steps.get(),
                        core,
                    );
                },
            }
            proof {
                let glimpse = Glimpse { energy: candidate, draw };
                start.lemma_replay_push(kind, whole, seen, glimpse);
                start.lemma_take_of_push(kind, whole, seen, glimpse);
                seen = seen.push(glimpse);
            }
            match counters.settle(kind, worker.energy, candidate, draw) {
                Settled::Accepted => {
                    let new_energy: i64 = match candidate {
                        Some(e) => e,
                        None => worker.energy,
                    };
                    worker = MrResult { energy: new_energy, state: next_state };
                },
                Settled::Exhausted => {
                    proof {
                        left = true;
                    }
                    break ;
                },
                _ => {},
            }
            let elapsed = counters.tick();
            cool(host, temperature, elapsed);
        }
        proof {
            let end = Search {
                worker,
                counters: *counters,
                taken: (whole.len() - pool@.len()) as usize,
                left,
            };
            assert(self.explored(begin, *old(counters), whole, seen, end));
        }
        worker
    }

    /// What holds of the turns of a round from a master of energy
    /// `master`, with the shared counters at `counters` and the
    /// neighbourhood `neigh`: every worker begins at the energy of the
    /// master, the first finds the counters and the whole neighbourhood,
    /// each later one finds what the one before it left, and each explores
    /// as `explored` says.
    pub open spec fn rounded<S>(
        self,
        master: i64,
        counters: RoundCounters,
        neigh: Seq<S>,
        turns: Seq<Turn<S>>,
    ) -> bool {
        forall|i: int|
            0 <= i < turns.len() ==> {
                let turn = #[trigger] turns[i];
                &&& turn.begin.energy == master
                &&& turn.counters == (if i == 0 {
                    counters
                } else {
                    turns[i - 1].end.counters
                })
                &&& turn.pool == (if i == 0 {
                    neigh
                } else {
                    turns[i - 1].pool_left()
                })
                &&& self.explored(turn.begin, turn.counters, turn.pool, turn.seen, turn.end)
            }
    }

    /// The turns of a round stay the turns of a round when a further
    /// worker begins at the energy of the master, finds what the last one
    /// left and explores.
    pub proof fn lemma_rounded_push<S>(
        self,
        master: i64,
        counters: RoundCounters,
        neigh: Seq<S>,
        turns: Seq<Turn<S>>,
        turn: Turn<S>,
    )
        requires
            self.rounded(master, counters, neigh, turns),
            turn.begin.energy == master,
            turn.counters == (if turns.len() == 0 {
                counters
            } else {
                turns.last().end.counters
            }),
            turn.pool == (if turns.len() == 0 {
                neigh
            } else {
                turns.last().pool_left()
            }),
            self.explored(turn.begin, turn.counters, turn.pool, turn.seen, turn.end),
        ensures
            self.rounded(master, counters, neigh, turns.push(turn)),
    {
        let more = turns.push(turn);
        assert forall|i: int| 0 <= i < more.len() implies {
            let t = #[trigger] more[i];
            &&& t.begin.energy == master
            &&& t.counters == (if i == 0 {
                counters
            } else {
                more[i - 1].end.counters
            })
            &&& t.pool == (if i == 0 {
                neigh
            } else {
                more[i - 1].pool_left()
            })
            &&& self.explored(t.begin, t.counters, t.pool, t.seen, t.end)
        } by {
            if i < turns.len() {
                assert(more[i] == turns[i]);
                if i > 0 {
                    assert(more[i - 1] == turns[i - 1]);
                }
            } else if i > 0 {
                assert(more[i - 1] == turns.last());
            }
        }
    }

    /// One round: the workers explore the neighbourhood of the master in
    /// turn, each on a copy of the problem and from a copy of the master,
    /// and the best of where they end is the next master. Where the round
    /// counts no step, no worker has moved and the energy of the master
    /// stays.
    pub fn round<P: Problem + Clone, H: Host<P::State>>(
        &self,
        problem: &mut P,
        host: &mut H,
        workers: usize,
        master: &MrResult<P::State>,
        counters: &mut RoundCounters,
        temperature: &mut Temperature,
        start_time: u64,
    ) -> (r: MrResult<P::State>) where P::State: Clone
        requires
            workers >= 1,
            old(temperature).wf(),
        ensures
            final(temperature).wf(),
            final(temperature).cooler == old(temperature).cooler,
            final(temperature).schedule == old(temperature).schedule,
            final(counters).elapsed_steps.value >= old(counters).elapsed_steps.value,
            final(counters).elapsed_steps.value == old(counters).elapsed_steps.value && old(
                counters,
            ).elapsed_steps.value < u64::MAX ==> r.energy == master.energy,
            exists|neigh: Seq<P::State>, turns: Seq<Turn<P::State>>|
                #![trigger self.rounded(master.energy, *old(counters), neigh, turns)]
                {
                    &&& turns.len() == workers
                    &&& self.rounded(master.energy, *old(counters), neigh, turns)
                    &&& *final(counters) == turns.last().end.counters
                    &&& r == Turn::ends(turns)[winner(self.energy_type, Turn::ends(turns))]
                },
    {
        let neigh = problem.neigh_space(&master.state);
        let ghost space = neigh@;
        let mut pool = NeighborhoodsPool::new(neigh);
        let mut results: ThreadsResults<P::State> = ThreadsResults::new();
        let mut core: usize = 0;
        let ghost mut turns: Seq<Turn<P::State>> = Seq::empty();
        while core < workers
            invariant
                core <= workers,
                results@.len() == core,
                turns.len() == core,
                self.rounded(master.energy, *old(counters), space, turns),
                core == 0 ==> *counters == *old(counters) && pool@ == space,
                core > 0 ==> *counters == turns.last().end.counters && pool@
                    == turns.last().pool_left(),
                results@ =~= Turn::ends(turns),
                temperature.wf(),
                temperature.cooler == old(temperature).cooler,
                temperature.schedule == old(temperature).schedule,
                counters.elapsed_steps.value >= old(counters).elapsed_steps.value,
                counters.elapsed_steps.value == old(counters).elapsed_steps.value && old(
                    counters,
                ).elapsed_steps.value < u64::MAX ==> forall|i: int|
                    0 <= i < results@.len() ==> (#[trigger] results@[i]).energy == master.energy,
            decreases workers - core,
        {
            let begin = MrResult { energy: master.energy, state: master.state.clone() };
            let mut own = problem.clone();
            let ghost found = *counters;
            let ghost stock = pool@;
            let size: usize = pool.size();
            let end = self.explore(
                &mut own,
                host,
                core,
                begin,
                &mut pool,
                counters,
                temperature,
                start_time,
            );
            proof {
                let taken = (stock.len() - pool@.len()) as usize;
                let (seen, left) = choose|seen: Seq<Glimpse>, left: bool|
                    #[trigger] self.explored(
                        begin,
                        found,
                        stock,
                        seen,
                        (Search { worker: end, counters: *counters, taken, left }),
                    );
                let turn = Turn {
                    begin,
                    counters: found,
                    pool: stock,
                    seen,
                    end: Search { worker: end, counters: *counters, taken, left },
                };
                self.lemma_rounded_push(master.energy, *old(counters), space, turns, turn);
                turns = turns.push(turn);
                assert(pool@ == turn.pool_left());
            }
            results.push(end);
            core = core + 1;
        }
        proof {
            lemma_winner_is_best(self.energy_type, results@);
        }
        best_of(self.energy_type, results.get_coll())
    }

    /// What holds of the rounds of a search that began at the master
    /// `first`: every round has a worker, the first round begins at
    /// `first` with the counters at zero, each later one begins at what
    /// the round before it handed on, a round is begun only while no more
    /// steps have elapsed than the configured number and the round before
    /// it has counted a step, and each goes as `rounded` says.
    pub open spec fn searched<S>(self, first: MrResult<S>, rounds: Seq<Round<S>>) -> bool {
        forall|i: int|
            0 <= i < rounds.len() ==> {
                let round = #[trigger] rounds[i];
                &&& round.turns.len() >= 1
                &&& round.master == (if i == 0 {
                    first
                } else {
                    rounds[i - 1].next_master(self.energy_type)
                })
                &&& round.counters == (if i == 0 {
                    RoundCounters::zero()
                } else {
                    rounds[i - 1].counters_left()
                })
                &&& round.counters.elapsed_steps.value <= self.max_steps
                &&& i > 0 ==> rounds[i - 1].moved()
                &&& self.rounded(round.master.energy, round.counters, round.neigh, round.turns)
            }
    }

    /// What holds of the result of a search: it is what the last of its
    /// rounds handed on, and that round left more steps elapsed than the
    /// configured number or counted no step.
    pub open spec fn outcome<S>(self, best: MrResult<S>) -> bool {
        exists|first: MrResult<S>, rounds: Seq<Round<S>>|
            #![trigger self.searched(first, rounds)]
            {
                &&& rounds.len() >= 1
                &&& self.searched(first, rounds)
                &&& best == rounds.last().next_master(self.energy_type)
                &&& rounds.last().counters_left().elapsed_steps.value > self.max_steps
                    || !rounds.last().moved()
            }
    }

    /// The rounds of a search stay the rounds of a search when a further
    /// round is begun as `searched` asks.
    pub proof fn lemma_searched_push<S>(
        self,
        first: MrResult<S>,
        rounds: Seq<Round<S>>,
        round: Round<S>,
    )
        requires
            self.searched(first, rounds),
            round.turns.len() >= 1,
            round.master == (if rounds.len() == 0 {
                first
            } else {
                rounds.last().next_master(self.energy_type)
            }),
            round.counters == (if rounds.len() == 0 {
                RoundCounters::zero()
            } else {
                rounds.last().counters_left()
            }),
            round.counters.elapsed_steps.value <= self.max_steps,
            rounds.len() > 0 ==> rounds.last().moved(),
            self.rounded(round.master.energy, round.counters, round.neigh, round.turns),
        ensures
            self.searched(first, rounds.push(round)),
    {
        let more = rounds.push(round);
        assert forall|i: int| 0 <= i < more.len() implies {
            let r = #[trigger] more[i];
            &&& r.turns.len() >= 1
            &&& r.master == (if i == 0 {
                first
            } else {
                more[i - 1].next_master(self.energy_type)
            })
            &&& r.counters == (if i == 0 {
                RoundCounters::zero()
            } else {
                more[i - 1].counters_left()
            })
            &&& r.counters.elapsed_steps.value <= self.max_steps
            &&& i > 0 ==> more[i - 1].moved()
            &&& self.rounded(r.master.energy, r.counters, r.neigh, r.turns)
        } by {
            if i < rounds.len() {
                assert(more[i] == rounds[i]);
                if i > 0 {
                    assert(more[i - 1] == rounds[i - 1]);
                }
            } else if i > 0 {
                assert(more[i - 1] == rounds.last());
            }
        }
    }

    /// Where some worker of a round finds the pool empty, it hands the
    /// master back as it was, and the master that the round hands on is no
    /// worse than the master that the round began with.
    pub proof fn lemma_idle_worker_keeps_master<S>(self, round: Round<S>, idle: int)
        requires
            self.rounded(round.master.energy, round.counters, round.neigh, round.turns),
            0 <= idle < round.turns.len(),
            round.turns[idle].pool.len() == 0,
        ensures
            round.turns[idle].end.worker == round.turns[idle].begin,
            signed_delta(
                self.energy_type,
                round.master.energy as int,
                round.next_master(self.energy_type).energy as int,
            ) >= 0,
    {
        let turn = round.turns[idle];
        assert(turn.seen.len() == 0);
        let ends = Turn::ends(round.turns);
        assert(ends[idle].energy == round.master.energy);
        lemma_winner_keeps_master(self.energy_type, ends, round.master.energy, idle);
    }

    /// Runs rounds from the initial state of the problem until more steps
    /// have elapsed than the configured number, or until a round counts no
    /// step, and returns the last master. Each round has one worker for
    /// each physical core of the machine; the number of workers asked for
    /// is not read. Fails only where the initial state has no energy.
    pub fn solve<P: Problem + Clone, H: Host<P::State>>(
        &self,
        problem: &mut P,
        host: &mut H,
        num_workers: usize,
    ) -> (r: Result<MrResult<P::State>, SolverError>) where P::State: Clone
        requires
            self.valid(),
        ensures
            r matches Ok(best) ==> self.outcome(best),
            r matches Err(e) ==> e == SolverError::InfeasibleInitial,
    {
        let state = problem.initial_state();
        let measured = problem.energy(&state, 0);
        self.solve_from(problem, host, state, measured)
    }
}

impl Spis {
    /// What holds of the result of a search that began at the master
    /// `first`: it is what the last of its rounds handed on, and that
    /// round left more steps elapsed than the configured number or counted
    /// no step.
    pub open spec fn outcome_from<S>(self, first: MrResult<S>, best: MrResult<S>) -> bool {
        exists|rounds: Seq<Round<S>>|
            #![trigger self.searched(first, rounds)]
            {
                &&& rounds.len() >= 1
                &&& self.searched(first, rounds)
                &&& best == rounds.last().next_master(self.energy_type)
                &&& rounds.last().counters_left().elapsed_steps.value > self.max_steps
                    || !rounds.last().moved()
            }
    }

    /// Runs the rounds of a search from `state`, for which the problem has
    /// measured `measured`. Where there is no energy the search fails;
    /// where there is one it succeeds, and its first master is that state
    /// at that energy.
    pub fn solve_from<P: Problem + Clone, H: Host<P::State>>(
        &self,
        problem: &mut P,
        host: &mut H,
        state: P::State,
        measured: Option<i64>,
    ) -> (r: Result<MrResult<P::State>, SolverError>) where P::State: Clone
        requires
            self.valid(),
        ensures
            measured is None ==> r is Err && r->Err_0 == SolverError::InfeasibleInitial,
            measured matches Some(energy) ==> r is Ok && self.outcome_from(
                (MrResult { energy, state }),
                r->Ok_0,
            ),
            r matches Ok(best) ==> self.outcome(best),
    {
        let energy: i64 = match measured {
            Some(nrg) => nrg,
            None => {
                return Err(SolverError::InfeasibleInitial);
            },
        };
        let limit: u64 = self.max_steps as u64;
        let cooler = StepsCooler {
            max_steps: limit,
            min_temp: self.min_temp,
            max_temp: self.max_temp,
        };
        let mut temperature = Temperature::new(cooler, self.cooling_schedule);
        let mut counters = RoundCounters::new();
        let mut master = MrResult { energy, state };
        let start_time: u64 = precise_time_ns();
        let ghost first = master;
        let ghost mut rounds: Seq<Round<P::State>> = Seq::empty();
        while counters.elapsed_steps.get() <= limit
            invariant_except_break
                rounds.len() > 0 ==> rounds.last().moved(),
            invariant
                limit == self.max_steps,
                temperature.wf(),
                self.searched(first, rounds),
                rounds.len() == 0 ==> master == first && counters == RoundCounters::zero(),
                rounds.len() > 0 ==> master == rounds.last().next_master(self.energy_type)
                    && counters == rounds.last().counters_left(),
            ensures
                rounds.len() >= 1,
                counters.elapsed_steps.value > self.max_steps || !rounds.last().moved(),
            decreases u64::MAX - counters.elapsed_steps.value,
        {
            let before: u64 = counters.elapsed_steps.get();
            let workers: usize = physical_cores();
            let ghost found = counters;
            let ghost from = master;
            let next = self.round(
                problem,
                host,
                workers,
                &master,
                &mut counters,
                &mut temperature,
                start_time,
            );
            proof {
                let (neigh, turns) = choose|neigh: Seq<P::State>, turns: Seq<Turn<P::State>>|
                    #![trigger self.rounded(from.energy, found, neigh, turns)]
                    {
                        &&& turns.len() == workers
                        &&& self.rounded(from.energy, found, neigh, turns)
                        &&& counters == turns.last().end.counters
                        &&& next == Turn::ends(turns)[winner(self.energy_type, Turn::ends(turns))]
                    };
                let round = Round { master: from, counters: found, neigh, turns };
                self.lemma_searched_push(first, rounds, round);
                rounds = rounds.push(round);
            }
            master = next;
            if counters.elapsed_steps.get() == before {
                break ;
            }
        }
        Ok(master)
    }
}

} // verus!
