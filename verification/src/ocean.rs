//! The ocean: every beach and every reef.

use crate::beach::Beach;
use crate::prey::{Algae, Clam, Minnow, Prey, Shrimp};
use crate::reef::Reef;
use vstd::prelude::*;

verus! {

/// The speed of the minnows of a generated reef.
pub const MINNOW_SPEED: u32 = 25;

/// The energy of the shrimp of a generated reef.
pub const SHRIMP_ENERGY: u32 = 1;

/// The beaches, and the arena of reefs that crabs name reefs in.
#[derive(Debug)]
pub struct Ocean {
    pub reefs: Vec<Reef>,
    pub beaches: Vec<Beach>,
}

/// `count` prey that are all equal to `prey`.
pub open spec fn shoal(count: nat, prey: Prey) -> Seq<Prey> {
    Seq::new(count, |i: int| prey)
}

/// What a generated reef holds: the minnows first, then the shrimp, the
/// clams and the algae.
pub open spec fn stocked(n_minnows: u32, n_shrimp: u32, n_clams: u32, n_algae: u32) -> Seq<
    Prey,
> {
    shoal(n_minnows as nat, Prey::Minnow(Minnow { speed: MINNOW_SPEED }))
        + shoal(n_shrimp as nat, Prey::Shrimp(Shrimp { energy: SHRIMP_ENERGY }))
        + shoal(n_clams as nat, Prey::Clam(Clam {  }))
        + shoal(n_algae as nat, Prey::Algae(Algae {  }))
}

impl Ocean {
    /// An ocean without beaches or reefs.
    pub fn new() -> (ocean: Ocean)
        ensures
            ocean.reefs@ == Seq::<Reef>::empty(),
            ocean.beaches@ == Seq::<Beach>::empty(),
    {
        Ocean { reefs: Vec::new(), beaches: Vec::new() }
    }

    /// Adds a beach behind all that are there.
    pub fn add_beach(&mut self, beach: Beach)
        ensures
            final(self).beaches@ == old(self).beaches@.push(beach),
            final(self).reefs == old(self).reefs,
    {
        self.beaches.push(beach);
    }

    /// The beaches in order, for reading.
    pub fn beaches(&self) -> (beaches: &Vec<Beach>)
        ensures
            *beaches == self.beaches,
    {
        &self.beaches
    }

    /// The arena of reefs, for reading.
    pub fn reefs(&self) -> (reefs: &Vec<Reef>)
        ensures
            *reefs == self.reefs,
    {
        &self.reefs
    }

    /// Generates a reef with the given number of prey of each kind and adds
    /// it to the arena, behind the reefs that are there. Minnows get a speed
    /// of [`MINNOW_SPEED`], shrimp an energy of [`SHRIMP_ENERGY`]. Returns
    /// the index of the new reef, by which crabs can discover it.
    pub fn generate_reef(
        &mut self,
        n_minnows: u32,
        n_shrimp: u32,
        n_clams: u32,
        n_algae: u32,
    ) -> (reef: usize)
        ensures
            reef == old(self).reefs@.len(),
            final(self).reefs@.len() == old(self).reefs@.len() + 1,
            final(self).reefs@.drop_last() == old(self).reefs@,
            final(self).reefs@.last()@ == stocked(n_minnows, n_shrimp, n_clams, n_algae),
            final(self).beaches == old(self).beaches,
    {
        let mut reef = Reef::new();
        let ghost minnows = shoal(n_minnows as nat, Prey::Minnow(Minnow { speed: MINNOW_SPEED }));
        let ghost shrimp = shoal(n_shrimp as nat, Prey::Shrimp(Shrimp { energy: SHRIMP_ENERGY }));
        let ghost clams = shoal(n_clams as nat, Prey::Clam(Clam {  }));
        let ghost algae = shoal(n_algae as nat, Prey::Algae(Algae {  }));
        for n in 0..n_minnows
            invariant
                reef@ == minnows.take(n as int),
                minnows == shoal(n_minnows as nat, Prey::Minnow(Minnow { speed: MINNOW_SPEED })),
        {
            reef.add_prey(Prey::Minnow(Minnow::new(MINNOW_SPEED)));
        }
        for n in 0..n_shrimp
            invariant
                reef@ == minnows + shrimp.take(n as int),
                shrimp == shoal(n_shrimp as nat, Prey::Shrimp(Shrimp { energy: SHRIMP_ENERGY })),
        {
            reef.add_prey(Prey::Shrimp(Shrimp::new(SHRIMP_ENERGY)));
        }
        for n in 0..n_clams
            invariant
                reef@ == minnows + shrimp + clams.take(n as int),
                clams == shoal(n_clams as nat, Prey::Clam(Clam {  })),
        {
            reef.add_prey(Prey::Clam(Clam::new()));
        }
        for n in 0..n_algae
            invariant
                reef@ == minnows + shrimp + clams + algae.take(n as int),
                algae == shoal(n_algae as nat, Prey::Algae(Algae {  })),
        {
            reef.add_prey(Prey::Algae(Algae::new()));
        }
        let index: usize = self.reefs.len();
        self.reefs.push(reef);
        index
    }
}

} // verus!
