//! The primitives that workers coordinate through: counters and pools of
//! states.

use vstd::prelude::*;

verus! {

/// A counter that only grows between resets. It stops at the largest
/// value that it can hold.
#[derive(Clone, Copy, Debug, PartialEq, Eq, Structural)]
pub struct SharedCounter {
    pub value: u64,
}

impl SharedCounter {
    /// The value after one increment of `value`.
    pub open spec fn bumped(value: u64) -> u64 {
        if value < u64::MAX {
            (value + 1) as u64
        } else {
            value
        }
    }

    /// A counter at zero.
    pub fn new() -> (c: Self)
        ensures
            c.value == 0,
    {
        SharedCounter { value: 0 }
    }

    /// Adds one to the counter.
    pub fn increment(&mut self)
        ensures
            final(self).value == Self::bumped(old(self).value),
            final(self).value >= old(self).value,
    {
        if self.value < u64::MAX {
            self.value = self.value + 1;
        }
    }

    /// Sets the counter back to zero.
    pub fn reset(&mut self)
        ensures
            final(self).value == 0,
    {
        self.value = 0;
    }

    /// The current count.
    pub fn get(&self) -> (v: u64)
        ensures
            v == self.value,
    {
        self.value
    }
}

/// A pool of states that workers take their starting states from.
pub struct StatesPool<S> {
    pub items: Vec<S>,
}

impl<S> StatesPool<S> {
    /// The states in the pool, the one taken next at the end.
    pub open spec fn view(&self) -> Seq<S> {
        self.items@
    }

    /// An empty pool.
    pub fn new() -> (p: Self)
        ensures
            p@ == Seq::<S>::empty(),
    {
        StatesPool { items: Vec::new() }
    }

    /// Adds a state to the pool.
    pub fn push(&mut self, state: S)
        ensures
            final(self)@ == old(self)@.push(state),
    {
        self.items.push(state);
    }

    /// Takes one state out of the pool, or nothing from an empty pool.
    pub fn remove_one(&mut self) -> (r: Option<S>)
        ensures
            old(self)@.len() == 0 ==> r is None && final(self)@ == old(self)@,
            old(self)@.len() > 0 ==> r == Some(old(self)@.last()) && final(self)@ == old(
                self,
            )@.drop_last(),
    {
        self.items.pop()
    }

    /// How many states the pool holds.
    pub fn size(&self) -> (n: usize)
        ensures
            n == self@.len(),
    {
        self.items.len()
    }
}

/// The work queue of one round: the neighbours of the master state that
/// are still to be explored.
pub struct NeighborhoodsPool<S> {
    pub items: Vec<S>,
}

impl<S> NeighborhoodsPool<S> {
    /// The neighbours still to be explored, the one taken next at the end.
    pub open spec fn view(&self) -> Seq<S> {
        self.items@
    }

    /// A pool that holds the neighbourhood `neigh`.
    pub fn new(neigh: Vec<S>) -> (p: Self)
        ensures
            p@ == neigh@,
    {
        NeighborhoodsPool { items: neigh }
    }

    /// Takes one neighbour out of the pool, or nothing from an empty pool.
    pub fn remove_one(&mut self) -> (r: Option<S>)
        ensures
            old(self)@.len() == 0 ==> r is None && final(self)@ == old(self)@,
            old(self)@.len() > 0 ==> r == Some(old(self)@.last()) && final(self)@ == old(
                self,
            )@.drop_last(),
    {
        self.items.pop()
    }

    /// How many neighbours are still to be explored.
    pub fn size(&self) -> (n: usize)
        ensures
            n == self@.len(),
    {
        self.items.len()
    }
}

} // verus!
