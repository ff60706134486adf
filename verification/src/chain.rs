//! One annealing chain: the current state and energy together with the
//! counters that convergence is judged by.

use vstd::prelude::*;
use crate::energy::{EnergyType, Verdict, judge, signed_delta, verdict_of};

verus! {

/// What one step of a chain met: the candidate, its energy if it could be
/// evaluated, and the outcome of the random test.
pub struct Trial<S> {
    pub candidate: S,
    pub energy: Option<i64>,
    pub draw: bool,
}

/// The state of one annealing chain.
#[derive(Debug)]
pub struct Chain<S> {
    /// The last accepted state.
    pub state: S,
    /// The energy of that state.
    pub energy: i64,
    /// How many candidates were accepted.
    pub accepted: u64,
    /// How many candidates were rejected since the last improvement.
    pub rejected: u64,
    /// How many steps were taken.
    pub steps: u64,
}

impl<S> Chain<S> {
    /// The counters never exceed the number of steps.
    pub open spec fn wf(self) -> bool {
        &&& self.accepted <= self.steps
        &&& self.rejected <= self.steps
    }

    /// A chain that has taken no step yet.
    pub open spec fn start(state: S, energy: i64) -> Self {
        Chain { state, energy, accepted: 0, rejected: 0, steps: 0 }
    }

    /// The chain after a step whose candidate could not be evaluated:
    /// only the step count moves.
    pub open spec fn skipped(self) -> Self {
        Chain { steps: (self.steps + 1) as u64, ..self }
    }

    /// The chain after a step whose candidate has energy `energy`.
    pub open spec fn judged(self, kind: EnergyType, candidate: S, energy: i64, draw: bool) -> Self {
        match verdict_of(kind, self.energy as int, energy as int, draw) {
            Verdict::Improved => Chain {
                state: candidate,
                energy,
                accepted: (self.accepted + 1) as u64,
                rejected: 0,
                steps: (self.steps + 1) as u64,
            },
            Verdict::Tolerated => Chain {
                state: candidate,
                energy,
                accepted: (self.accepted + 1) as u64,
                rejected: self.rejected,
                steps: (self.steps + 1) as u64,
            },
            Verdict::Rejected => Chain {
                rejected: (self.rejected + 1) as u64,
                steps: (self.steps + 1) as u64,
                ..self
            },
        }
    }

    /// The chain after one step.
    pub open spec fn after(self, kind: EnergyType, trial: Trial<S>) -> Self {
        match trial.energy {
            None => self.skipped(),
            Some(e) => self.judged(kind, trial.candidate, e, trial.draw),
        }
    }

    /// The chain after a sequence of steps.
    pub open spec fn replay(self, kind: EnergyType, trials: Seq<Trial<S>>) -> Self
        decreases trials.len(),
    {
        if trials.len() == 0 {
            self
        } else {
            self.replay(kind, trials.drop_last()).after(kind, trials.last())
        }
    }

    /// Starts a chain at `state`, whose energy is `energy`.
    pub fn new(state: S, energy: i64) -> (c: Self)
        ensures
            c == Self::start(state, energy),
            c.wf(),
    {
        Chain { state, energy, accepted: 0, rejected: 0, steps: 0 }
    }

    /// Records a step whose candidate could not be evaluated.
    pub fn skip(&mut self)
        requires
            old(self).steps < u64::MAX,
        ensures
            *final(self) == old(self).skipped(),
            old(self).wf() ==> final(self).wf(),
    {
        self.steps = self.steps + 1;
    }

    /// Records a step whose candidate has energy `energy`: applies the
    /// acceptance rule, moves to the candidate on an accept and keeps the
    /// counters.
    pub fn advance(&mut self, kind: EnergyType, candidate: S, energy: i64, draw: bool) -> (v:
        Verdict)
        requires
            old(self).wf(),
            old(self).steps < u64::MAX,
        ensures
            v == verdict_of(kind, old(self).energy as int, energy as int, draw),
            *final(self) == old(self).judged(kind, candidate, energy, draw),
            final(self).wf(),
            final(self).steps == old(self).steps + 1,
            v == Verdict::Improved ==> final(self).rejected == 0,
            v == Verdict::Tolerated ==> final(self).rejected == old(self).rejected,
            v == Verdict::Rejected ==> final(self).rejected == old(self).rejected + 1,
            v.accepts() ==> final(self).accepted == old(self).accepted + 1 && final(self).state
                == candidate && final(self).energy == energy,
            !v.accepts() ==> final(self).accepted == old(self).accepted && final(self).state
                == old(self).state && final(self).energy == old(self).energy,
    {
        let v = judge(kind, self.energy, energy, draw);
        match v {
            Verdict::Improved => {
                self.state = candidate;
                self.energy = energy;
                self.accepted = self.accepted + 1;
                self.rejected = 0;
            },
            Verdict::Tolerated => {
                self.state = candidate;
                self.energy = energy;
                self.accepted = self.accepted + 1;
            },
            Verdict::Rejected => {
                self.rejected = self.rejected + 1;
            },
        }
        self.steps = self.steps + 1;
        v
    }
}

impl<S> Chain<S> {
    /// Replaying one more step is the step taken after the replay of the
    /// others.
    pub proof fn lemma_replay_push(self, kind: EnergyType, trials: Seq<Trial<S>>, trial: Trial<S>)
        ensures
            self.replay(kind, trials.push(trial)) == self.replay(kind, trials).after(kind, trial),
    {
        assert(trials.push(trial).drop_last() =~= trials);
    }

    /// The replay of a prefix of the trials is not changed by a further
    /// trial, and the replay of all but that trial is the prefix of full
    /// length.
    pub proof fn lemma_take_of_push(self, kind: EnergyType, trials: Seq<Trial<S>>, trial: Trial<S>)
        ensures
            forall|k: int|
                0 <= k <= trials.len() ==> self.replay(kind, #[trigger] trials.push(trial).take(k))
                    == self.replay(kind, trials.take(k)),
            self.replay(kind, trials.take(trials.len() as int)) == self.replay(kind, trials),
            forall|k: int| 0 <= k < trials.len() ==> trials.push(trial)[k] == trials[k],
    {
        assert forall|k: int| 0 <= k <= trials.len() implies self.replay(
            kind,
            #[trigger] trials.push(trial).take(k),
        ) == self.replay(kind, trials.take(k)) by {
            assert(trials.push(trial).take(k) =~= trials.take(k));
        }
        assert(trials.take(trials.len() as int) =~= trials);
    }

    /// A chain is a function of where it started and what its steps met:
    /// two runs that start alike and meet the same trials end alike.
    pub proof fn lemma_replay_deterministic(
        self,
        other: Self,
        kind: EnergyType,
        trials: Seq<Trial<S>>,
        others: Seq<Trial<S>>,
    )
        requires
            self == other,
            trials =~= others,
        ensures
            self.replay(kind, trials) == other.replay(kind, others),
    {
    }

    /// Steps whose candidates cannot be evaluated leave the state, the
    /// energy and the acceptance counters as they were; only the step
    /// count moves.
    pub proof fn lemma_infeasible_steps_keep_chain(self, kind: EnergyType, trials: Seq<Trial<S>>)
        requires
            self.steps + trials.len() <= u64::MAX,
            forall|i: int| 0 <= i < trials.len() ==> (#[trigger] trials[i]).energy is None,
        ensures
            self.replay(kind, trials).state == self.state,
            self.replay(kind, trials).energy == self.energy,
            self.replay(kind, trials).accepted == self.accepted,
            self.replay(kind, trials).rejected == self.rejected,
            self.replay(kind, trials).steps == self.steps + trials.len(),
        decreases trials.len(),
    {
        if trials.len() > 0 {
            self.lemma_infeasible_steps_keep_chain(kind, trials.drop_last());
        }
    }

    /// The rejection counter returns to zero only on a strict improvement:
    /// a candidate let through by the random test leaves it as it was, a
    /// rejection raises it by one and a skipped step does not touch it.
    pub proof fn lemma_reset_only_on_improvement(self, kind: EnergyType, trial: Trial<S>)
        requires
            self.wf(),
            self.steps < u64::MAX,
        ensures
            self.after(kind, trial).rejected == (match trial.energy {
                None => self.rejected as int,
                Some(e) => if signed_delta(kind, self.energy as int, e as int) > 0 {
                    0
                } else if trial.draw {
                    self.rejected as int
                } else {
                    self.rejected + 1
                },
            }),
            self.rejected > 0 && self.after(kind, trial).rejected == 0 ==> trial.energy is Some
                && signed_delta(kind, self.energy as int, trial.energy->Some_0 as int) > 0,
    {
    }

    /// While every candidate is evaluated and turned down, the chain stays
    /// where it is and each step adds one to the rejection counter.
    pub proof fn lemma_rejections_accumulate(self, kind: EnergyType, trials: Seq<Trial<S>>)
        requires
            self.wf(),
            self.steps + trials.len() <= u64::MAX,
            forall|i: int|
                0 <= i < trials.len() ==> (#[trigger] trials[i]).energy is Some && verdict_of(
                    kind,
                    self.energy as int,
                    trials[i].energy->Some_0 as int,
                    trials[i].draw,
                ) == Verdict::Rejected,
        ensures
            self.replay(kind, trials).state == self.state,
            self.replay(kind, trials).energy == self.energy,
            self.replay(kind, trials).accepted == self.accepted,
            self.replay(kind, trials).rejected == self.rejected + trials.len(),
            self.replay(kind, trials).steps == self.steps + trials.len(),
        decreases trials.len(),
    {
        if trials.len() > 0 {
            self.lemma_rejections_accumulate(kind, trials.drop_last());
        }
    }

    /// While every candidate is a strict improvement, every step is an
    /// accept and the chain ends on the last candidate.
    pub proof fn lemma_improvements_all_accepted(self, kind: EnergyType, trials: Seq<Trial<S>>)
        requires
            self.wf(),
            self.steps + trials.len() <= u64::MAX,
            trials.len() > 0,
            forall|i: int| 0 <= i < trials.len() ==> (#[trigger] trials[i]).energy is Some,
            signed_delta(kind, self.energy as int, trials[0].energy->Some_0 as int) > 0,
            forall|i: int|
                0 < i < trials.len() ==> signed_delta(
                    kind,
                    trials[i - 1].energy->Some_0 as int,
                    (#[trigger] trials[i]).energy->Some_0 as int,
                ) > 0,
        ensures
            self.replay(kind, trials).state == trials.last().candidate,
            self.replay(kind, trials).energy == trials.last().energy->Some_0,
            self.replay(kind, trials).accepted == self.accepted + trials.len(),
            self.replay(kind, trials).rejected == 0,
            self.replay(kind, trials).steps == self.steps + trials.len(),
        decreases trials.len(),
    {
        let front = trials.drop_last();
        if front.len() > 0 {
            assert forall|i: int| 0 < i < front.len() implies signed_delta(
                kind,
                front[i - 1].energy->Some_0 as int,
                (#[trigger] front[i]).energy->Some_0 as int,
            ) > 0 by {
                assert(front[i] == trials[i]);
                assert(front[i - 1] == trials[i - 1]);
            }
            assert(front[0] == trials[0]);
            assert forall|i: int| 0 <= i < front.len() implies (#[trigger] front[i]).energy is Some by {
                assert(front[i] == trials[i]);
            }
            self.lemma_improvements_all_accepted(kind, front);
            assert(front.last() == trials[trials.len() - 2]);
        } else {
            assert(self.replay(kind, front) == self);
        }
    }
}

} // verus!
