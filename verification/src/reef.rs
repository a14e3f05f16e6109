//! Reefs: where prey waits.

use crate::prey::Prey;
use std::collections::VecDeque;
use vstd::prelude::*;

verus! {

/// A population of prey, kept in the order of arrival.
///
/// A reef is a queue: prey is taken from the front and added at the back, so
/// whoever takes a prey and puts it back will see every other resident
/// before seeing that one again.
#[derive(Debug)]
pub struct Reef {
    prey: VecDeque<Prey>,
}

impl View for Reef {
    type V = Seq<Prey>;

    /// The residents, the next to be taken first.
    closed spec fn view(&self) -> Seq<Prey> {
        self.prey@
    }
}

impl Reef {
    /// An empty reef.
    pub fn new() -> (reef: Reef)
        ensures
            reef@ == Seq::<Prey>::empty(),
    {
        Reef { prey: VecDeque::new() }
    }

    /// How many prey the reef holds.
    pub fn population(&self) -> (count: usize)
        ensures
            count == self@.len(),
    {
        self.prey.len()
    }

    /// The residents in order, the next to be taken first, for reading.
    pub fn prey(&self) -> (residents: &VecDeque<Prey>)
        ensures
            residents@ == self@,
    {
        &self.prey
    }

    /// Adds one prey, which will be taken after all that are there.
    pub fn add_prey(&mut self, prey: Prey)
        ensures
            final(self)@ == old(self)@.push(prey),
    {
        self.prey.push_back(prey);
    }

    /// Takes the prey that has waited longest, if there is any.
    pub fn take_prey(&mut self) -> (taken: Option<Prey>)
        ensures
            old(self)@.len() == 0 ==> taken is None && final(self)@ == old(self)@,
            old(self)@.len() > 0 ==> taken == Some(old(self)@[0]) && final(self)@ == old(
                self,
            )@.drop_first(),
    {
        self.prey.pop_front()
    }
}

/// What is left of a reef after `count` prey were taken from it, one by
/// one, or after all were taken where it holds fewer.
pub open spec fn left_after(reef: Seq<Prey>, count: nat) -> Seq<Prey>
    decreases count,
{
    if count == 0 || reef.len() == 0 {
        reef
    } else {
        left_after(reef.drop_first(), (count - 1) as nat)
    }
}

/// The prey that `count` takes hand out, in the order of the takes.
pub open spec fn taken_in(reef: Seq<Prey>, count: nat) -> Seq<Prey>
    decreases count,
{
    if count == 0 || reef.len() == 0 {
        Seq::empty()
    } else {
        seq![reef[0]] + taken_in(reef.drop_first(), (count - 1) as nat)
    }
}

/// Taking as often as a reef has prey hands out every prey once, in the
/// order of arrival, and leaves the reef empty.
pub proof fn taking_all_empties_the_reef(reef: Seq<Prey>)
    ensures
        left_after(reef, reef.len()) == Seq::<Prey>::empty(),
        taken_in(reef, reef.len()) == reef,
    decreases reef.len(),
{
    if reef.len() > 0 {
        taking_all_empties_the_reef(reef.drop_first());
        assert(seq![reef[0]] + reef.drop_first() =~= reef);
    }
}

} // verus!
