//! Beaches: where crabs live.

use crate::color::Color;
use crate::crab::Crab;
use crate::diet::{Diet, DIET_COUNT};
use vstd::prelude::*;

verus! {

/// The crabs of one beach, in the order in which they came.
#[derive(Debug)]
pub struct Beach {
    pub crabs: Vec<Crab>,
}

/// Whether the crab at `index` is the fastest: none is faster, and none
/// behind it is as fast. Among crabs of the same top speed it is the last.
pub open spec fn is_fastest(crabs: Seq<Crab>, index: int) -> bool {
    &&& 0 <= index < crabs.len()
    &&& forall|j: int| 0 <= j < crabs.len() ==> (#[trigger] crabs[j]).speed <= crabs[index].speed
    &&& forall|j: int| index < j < crabs.len() ==> (#[trigger] crabs[j]).speed < crabs[index].speed
}

/// Whether a crab has the name `name`.
pub open spec fn is_called(crab: Crab, name: Seq<char>) -> bool {
    crab.name@ == name
}

/// Only one index is that of the fastest crab.
pub proof fn lemma_fastest_is_unique(crabs: Seq<Crab>, first: int, second: int)
    requires
        is_fastest(crabs, first),
        is_fastest(crabs, second),
    ensures
        first == second,
{
}

impl Beach {
    /// A beach without crabs.
    pub fn new() -> (beach: Beach)
        ensures
            beach.crabs@ == Seq::<Crab>::empty(),
    {
        Beach { crabs: Vec::new() }
    }

    /// The number of crabs on the beach.
    pub fn size(&self) -> (size: usize)
        ensures
            size == self.crabs@.len(),
    {
        self.crabs.len()
    }

    /// Moves `crab` onto the beach, behind all that are there.
    pub fn add_crab(&mut self, crab: Crab)
        ensures
            final(self).crabs@ == old(self).crabs@.push(crab),
    {
        self.crabs.push(crab)
    }

    /// The crab at `index`, which must be the index of a crab.
    pub fn get_crab(&self, index: usize) -> (crab: &Crab)
        requires
            index < self.crabs@.len(),
        ensures
            *crab == self.crabs@[index as int],
    {
        &self.crabs[index]
    }

    /// The crabs in order, for reading.
    pub fn crabs(&self) -> (crabs: &Vec<Crab>)
        ensures
            *crabs == self.crabs,
    {
        &self.crabs
    }

    /// The crab with the highest speed, or `None` on an empty beach. Where
    /// several crabs share the highest speed, it is the last of them.
    pub fn get_fastest_crab(&self) -> (fastest: Option<&Crab>)
        ensures
            self.crabs@.len() == 0 <==> fastest is None,
            fastest matches Some(crab) ==> exists|index: int|
                is_fastest(self.crabs@, index) && *crab == #[trigger] self.crabs@[index],
    {
        if self.crabs.len() == 0 {
            return None;
        }
        let mut best: usize = 0;
        let mut index: usize = 1;
        while index < self.crabs.len()
            invariant
                0 <= best < index <= self.crabs@.len(),
                forall|j: int|
                    0 <= j < index ==> (#[trigger] self.crabs@[j]).speed
                        <= self.crabs@[best as int].speed,
                forall|j: int|
                    best < j < index ==> (#[trigger] self.crabs@[j]).speed
                        < self.crabs@[best as int].speed,
            decreases self.crabs@.len() - index,
        {
            if self.crabs[index].speed() >= self.crabs[best].speed() {
                best = index;
            }
            index = index + 1;
        }
        Some(&self.crabs[best])
    }

    /// The crabs called `name`, in their order on the beach.
    pub fn find_crabs_by_name(&self, name: &str) -> (found: Vec<&Crab>)
        ensures
            found@.unref() == self.crabs@.filter(|crab: Crab| is_called(crab, name@)),
    {
        let wanted: String = name.to_owned();
        let ghost called = |crab: Crab| is_called(crab, name@);
        let mut found: Vec<&Crab> = Vec::new();
        let mut index: usize = 0;
        while index < self.crabs.len()
            invariant
                0 <= index <= self.crabs@.len(),
                wanted@ == name@,
                called == |crab: Crab| is_called(crab, name@),
                found@.unref() == self.crabs@.take(index as int).filter(called),
            decreases self.crabs@.len() - index,
        {
            let crab = &self.crabs[index];
            proof {
                self.crabs@.lemma_take_succ_push(index as int);
                self.crabs@.take(index as int).lemma_filter_push(self.crabs@[index as int], called);
            }
            if crab.name == wanted {
                found.push(crab);
            }
            index = index + 1;
        }
        assert(self.crabs@.take(index as int) =~= self.crabs@);
        found
    }

    /// Breeds the crabs at indices `i` and `j`, which must both be indices
    /// of crabs, and moves their child, called `name`, onto the beach behind
    /// all that are there.
    pub fn breed_crabs(&mut self, i: usize, j: usize, name: String)
        requires
            i < old(self).crabs@.len(),
            j < old(self).crabs@.len(),
        ensures
            final(self).crabs@.len() == old(self).crabs@.len() + 1,
            final(self).crabs@.drop_last() == old(self).crabs@,
            final(self).crabs@.last().name == name,
            final(self).crabs@.last().speed == 1,
            final(self).crabs@.last().color == Color::crossed(
                old(self).crabs@[i as int].color,
                old(self).crabs@[j as int].color,
            ),
            final(self).crabs@.last().reefs@ == Seq::<usize>::empty(),
            exists|index: int|
                0 <= index < DIET_COUNT && final(self).crabs@.last().diet == Diet::at(index),
    {
        let crab = Crab::breed(&self.crabs[i], &self.crabs[j], name);
        self.crabs.push(crab);
    }
}

} // verus!
