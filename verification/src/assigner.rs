//! The values that writes carry.

use crate::model::{highest, is_fresh, may_assign, record};
use crate::random::{draw, flip};
use crate::ratio::Ratio;
use rand::rngs::ThreadRng;
use std::collections::HashMap;
use vstd::prelude::*;

verus! {

broadcast use vstd::std_specs::hash::group_hash_axioms;

/// The counters of one run: for each variable the highest value written to
/// it so far.
///
/// Fresh values count up from one, so the order of the fresh writes to a
/// variable can be read off their values. A reused value is one that the
/// variable was given before.
pub struct ValueAssigner {
    counters: HashMap<usize, usize>,
}

impl View for ValueAssigner {
    type V = Map<usize, usize>;

    closed spec fn view(&self) -> Map<usize, usize> {
        self.counters@
    }
}

impl ValueAssigner {
    /// The counters of a run in which nothing has been written yet.
    pub fn new() -> (assigner: Self)
        ensures
            assigner@ == Map::<usize, usize>::empty(),
    {
        ValueAssigner { counters: HashMap::new() }
    }

    /// The highest value written to `variable` so far; zero if there is none.
    pub fn highest(&self, variable: usize) -> (top: usize)
        ensures
            top == highest(self@, variable),
    {
        match self.counters.get(&variable) {
            Some(top) => *top,
            None => 0,
        }
    }

    /// Issues the next fresh value for `variable`.
    pub fn mint(&mut self, variable: usize) -> (value: usize)
        requires
            highest(old(self)@, variable) < usize::MAX,
        ensures
            is_fresh(old(self)@, variable, value),
            final(self)@ == old(self)@.insert(variable, value),
    {
        let value: usize = self.highest(variable) + 1;
        self.counters.insert(variable, value);
        value
    }

    /// Picks the value of the next write to `variable`.
    ///
    /// The first write to a variable carries the fresh value one. A later
    /// write repeats, with probability `reuse`, a value drawn evenly from
    /// those issued for the variable so far, and carries the next fresh value
    /// otherwise.
    pub fn assign_value(&mut self, variable: usize, reuse: Ratio, rng: &mut ThreadRng) -> (value:
        usize)
        requires
            reuse.is_probability(),
            highest(old(self)@, variable) < usize::MAX,
        ensures
            may_assign(old(self)@, reuse, variable, value),
            final(self)@ == record(old(self)@, variable, value),
    {
        let top: usize = self.highest(variable);
        if top == 0 {
            self.mint(variable)
        } else if flip(rng, reuse) {
            draw(rng, 1, top)
        } else {
            self.mint(variable)
        }
    }
}

} // verus!
