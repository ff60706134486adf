//! What workers hand back, and the reduction that picks the best of it.

use vstd::prelude::*;
use crate::energy::{EnergyType, improves, signed_delta};

verus! {

/// The outcome of a search: an energy and the state that has it.
#[derive(Debug)]
pub struct MrResult<S> {
    pub energy: i64,
    pub state: S,
}

/// The results that the workers of one run or round have contributed.
pub struct ThreadsResults<S> {
    pub coll: Vec<MrResult<S>>,
}

impl<S> ThreadsResults<S> {
    /// The contributed results, in the order in which they came.
    pub open spec fn view(&self) -> Seq<MrResult<S>> {
        self.coll@
    }

    /// A collection without results.
    pub fn new() -> (t: Self)
        ensures
            t@ == Seq::<MrResult<S>>::empty(),
    {
        ThreadsResults { coll: Vec::new() }
    }

    /// Appends the result of one worker.
    pub fn push(&mut self, result: MrResult<S>)
        ensures
            final(self)@ == old(self)@.push(result),
    {
        self.coll.push(result);
    }

    /// Hands the results out, once all workers are done.
    pub fn get_coll(self) -> (v: Vec<MrResult<S>>)
        ensures
            v@ == self@,
    {
        self.coll
    }
}

/// The index that leads after the reduction has compared the last result
/// with the first `upto` ones in turn: the last result leads at first, and
/// an earlier one takes the lead only where it is strictly better.
pub open spec fn leader<S>(kind: EnergyType, results: Seq<MrResult<S>>, upto: int) -> int
    decreases upto,
{
    if upto <= 0 {
        results.len() - 1
    } else {
        let before = leader(kind, results, upto - 1);
        if signed_delta(kind, results[before].energy as int, results[upto - 1].energy as int) > 0 {
            upto - 1
        } else {
            before
        }
    }
}

/// The index of the result that the reduction returns.
pub open spec fn winner<S>(kind: EnergyType, results: Seq<MrResult<S>>) -> int {
    leader(kind, results, results.len() - 1)
}

/// The leader is one of the results, and none of those compared so far,
/// nor the last, is strictly better than it.
pub proof fn lemma_leader_is_best<S>(kind: EnergyType, results: Seq<MrResult<S>>, upto: int)
    requires
        results.len() > 0,
        0 <= upto <= results.len() - 1,
    ensures
        0 <= leader(kind, results, upto) < results.len(),
        forall|i: int|
            0 <= i < upto || i == results.len() - 1 ==> signed_delta(
                kind,
                results[leader(kind, results, upto)].energy as int,
                (#[trigger] results[i]).energy as int,
            ) <= 0,
    decreases upto,
{
    if upto > 0 {
        lemma_leader_is_best(kind, results, upto - 1);
    }
}

/// The winner of a reduction is one of the results and no result is
/// strictly better than it.
pub proof fn lemma_winner_is_best<S>(kind: EnergyType, results: Seq<MrResult<S>>)
    requires
        results.len() > 0,
    ensures
        0 <= winner(kind, results) < results.len(),
        forall|i: int|
            0 <= i < results.len() ==> signed_delta(
                kind,
                results[winner(kind, results)].energy as int,
                (#[trigger] results[i]).energy as int,
            ) <= 0,
{
    lemma_leader_is_best(kind, results, results.len() - 1);
}

/// Where some worker hands back an energy that is no worse than
/// `master`, the winner of the reduction is no worse than `master`
/// either.
pub proof fn lemma_winner_keeps_master<S>(
    kind: EnergyType,
    results: Seq<MrResult<S>>,
    master: i64,
    fallback: int,
)
    requires
        0 <= fallback < results.len(),
        signed_delta(kind, master as int, results[fallback].energy as int) >= 0,
    ensures
        signed_delta(kind, master as int, results[winner(kind, results)].energy as int) >= 0,
{
    lemma_winner_is_best(kind, results);
    assert(signed_delta(
        kind,
        results[winner(kind, results)].energy as int,
        results[fallback].energy as int,
    ) <= 0);
}

/// The reduction of a single result is that result.
pub proof fn lemma_single_result_wins<S>(kind: EnergyType, results: Seq<MrResult<S>>)
    requires
        results.len() == 1,
    ensures
        winner(kind, results) == 0,
{
}

/// Reduces the results of the workers to the best one: the last result
/// leads at first, and each of the others, in the order in which they came,
/// takes the lead where it is strictly better.
pub fn best_of<S>(kind: EnergyType, results: Vec<MrResult<S>>) -> (best: MrResult<S>)
    requires
        results@.len() > 0,
    ensures
        best == results@[winner(kind, results@)],
        forall|i: int|
            0 <= i < results@.len() ==> signed_delta(
                kind,
                best.energy as int,
                (#[trigger] results@[i]).energy as int,
            ) <= 0,
{
    let mut rest = results;
    let last: usize = rest.len() - 1;
    let mut lead: usize = last;
    let mut i: usize = 0;
    while i < last
        invariant
            rest@ == results@,
            last == rest@.len() - 1,
            0 <= i <= last,
            lead == leader(kind, rest@, i as int),
            0 <= lead < rest@.len(),
        decreases last - i,
    {
        if improves(kind, rest[lead].energy, rest[i].energy) {
            lead = i;
        }
        i = i + 1;
    }
    proof {
        lemma_winner_is_best(kind, results@);
    }
    rest.swap_remove(lead)
}

} // verus!
