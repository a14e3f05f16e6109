//! Prey: what lives in a reef, what it is eaten as, and how it gets away.
//!
//! There are four kinds. Each kind owns its rule of escape; [`Prey`] is the
//! closed sum of them and dispatches by `match`. A prey is neither `Clone`
//! nor `Copy`: it is in one place at a time.

use crate::chance::random_below;
use crate::crab::Crab;
use crate::diet::Diet;
use vstd::prelude::*;

verus! {

/// A draw that decides an escape lies below this bound.
pub const DRAW_BOUND: u32 = 100;

/// A small fish that darts away by luck: the faster, the luckier.
#[derive(Debug, PartialEq, Eq, Structural)]
pub struct Minnow {
    pub speed: u32,
}

/// A shrimp that jumps away as long as it has energy, one unit a jump.
#[derive(Debug, PartialEq, Eq, Structural)]
pub struct Shrimp {
    pub energy: u32,
}

/// A clam. It stays where it is.
#[derive(Debug, PartialEq, Eq, Structural)]
pub struct Clam {}

/// Algae. They stay where they are.
#[derive(Debug, PartialEq, Eq, Structural)]
pub struct Algae {}

/// Anything a crab may catch.
#[derive(Debug, PartialEq, Eq, Structural)]
pub enum Prey {
    Minnow(Minnow),
    Shrimp(Shrimp),
    Clam(Clam),
    Algae(Algae),
}

impl Minnow {
    pub fn new(speed: u32) -> (minnow: Minnow)
        ensures
            minnow.speed == speed,
    {
        Minnow { speed }
    }

    /// Whether the minnow gets away when `draw` is the draw made for the
    /// attempt: it does when the draw falls below its speed.
    pub open spec fn spec_escapes_on(&self, draw: u32) -> bool {
        draw < self.speed
    }

    /// Whether the minnow gets away, given the draw made for this attempt:
    /// it does when the draw falls below its speed, so a speed of 25 lets it
    /// go in 25 attempts of 100, and a speed of 100 or more always.
    #[verifier::when_used_as_spec(spec_escapes_on)]
    pub fn escapes_on(&self, draw: u32) -> (escaped: bool)
        ensures
            escaped == self.spec_escapes_on(draw),
    {
        draw < self.speed
    }

    /// One attempt to get away from a crab, decided by a fresh draw below
    /// [`DRAW_BOUND`]. The minnow itself does not change.
    pub fn try_escape(&mut self, _crab: &Crab) -> (escaped: bool)
        ensures
            *final(self) == *old(self),
            exists|draw: u32| draw < DRAW_BOUND && escaped == #[trigger] old(self).escapes_on(draw),
            old(self).speed == 0 ==> !escaped,
            old(self).speed >= DRAW_BOUND ==> escaped,
    {
        let draw: u32 = random_below(DRAW_BOUND);
        self.escapes_on(draw)
    }
}

impl Shrimp {
    pub fn new(energy: u32) -> (shrimp: Shrimp)
        ensures
            shrimp.energy == energy,
    {
        Shrimp { energy }
    }

    /// One attempt to get away from a crab: a shrimp with energy left spends
    /// one unit and escapes; a shrimp without is caught.
    pub fn try_escape(&mut self, _crab: &Crab) -> (escaped: bool)
        ensures
            escaped == (old(self).energy > 0),
            escaped ==> final(self).energy == old(self).energy - 1,
            !escaped ==> final(self).energy == 0,
    {
        if self.energy > 0 {
            self.energy = self.energy - 1;
            true
        } else {
            false
        }
    }
}

impl Clam {
    pub fn new() -> (clam: Clam)
        ensures
            clam == (Clam {  }),
    {
        Clam {  }
    }

    /// A clam never gets away.
    pub fn try_escape(&mut self, _crab: &Crab) -> (escaped: bool)
        ensures
            !escaped,
            *final(self) == *old(self),
    {
        false
    }
}

impl Algae {
    pub fn new() -> (algae: Algae)
        ensures
            algae == (Algae {  }),
    {
        Algae {  }
    }

    /// Algae never get away.
    pub fn try_escape(&mut self, _crab: &Crab) -> (escaped: bool)
        ensures
            !escaped,
            *final(self) == *old(self),
    {
        false
    }
}

impl Prey {
    /// What this prey is eaten as.
    pub open spec fn spec_diet(&self) -> Diet {
        match *self {
            Prey::Minnow(_) => Diet::Fish,
            Prey::Shrimp(_) => Diet::Shellfish,
            Prey::Clam(_) => Diet::Shellfish,
            Prey::Algae(_) => Diet::Plants,
        }
    }

    /// Whether an attempt to catch this prey fails when `draw` is the draw
    /// made for the attempt. Only a minnow's escape depends on the draw.
    pub open spec fn escapes_on(self, draw: u32) -> bool {
        match self {
            Prey::Minnow(minnow) => minnow.escapes_on(draw),
            Prey::Shrimp(shrimp) => shrimp.energy > 0,
            Prey::Clam(_) => false,
            Prey::Algae(_) => false,
        }
    }

    /// Whether this prey is caught at the first attempt, whatever the draw.
    pub open spec fn never_escapes(self) -> bool {
        forall|draw: u32| draw < DRAW_BOUND ==> !#[trigger] self.escapes_on(draw)
    }

    /// Whether this prey gets away from the next attempt, whatever the draw.
    pub open spec fn always_escapes(self) -> bool {
        forall|draw: u32| draw < DRAW_BOUND ==> #[trigger] self.escapes_on(draw)
    }

    /// This prey after one attempt to catch it, whether it got away or not.
    pub open spec fn after_attempt(self) -> Prey {
        match self {
            Prey::Shrimp(shrimp) => if shrimp.energy > 0 {
                Prey::Shrimp(Shrimp { energy: (shrimp.energy - 1) as u32 })
            } else {
                self
            },
            _ => self,
        }
    }

    /// This prey with all its energy spent. Attempts to escape cost a shrimp
    /// energy and change nothing else in any prey, so this is what stays of
    /// a prey through all its attempts.
    pub open spec fn spent(self) -> Prey {
        match self {
            Prey::Shrimp(_) => Prey::Shrimp(Shrimp { energy: 0 }),
            _ => self,
        }
    }

    /// What this prey is eaten as.
    #[verifier::when_used_as_spec(spec_diet)]
    pub fn diet(&self) -> (tag: Diet)
        ensures
            tag == self.spec_diet(),
    {
        match self {
            Prey::Minnow(_) => Diet::Fish,
            Prey::Shrimp(_) => Diet::Shellfish,
            Prey::Clam(_) => Diet::Shellfish,
            Prey::Algae(_) => Diet::Plants,
        }
    }

    /// One attempt to get away from the crab that took this prey out of its
    /// reef. Returns whether the prey got away; the attempt may change the
    /// prey, and changes nothing else. The crab is there for rules of escape
    /// that look at the hunter; none of the four kinds does.
    ///
    /// A minnow's attempt is decided by a random draw, so the contract says
    /// that the answer is the one that some draw below [`DRAW_BOUND`] gives.
    /// For the other kinds, and for a minnow with no speed or with a speed
    /// of [`DRAW_BOUND`] or more, every draw gives the same answer.
    pub fn try_escape(&mut self, crab: &Crab) -> (escaped: bool)
        ensures
            *final(self) == old(self).after_attempt(),
            exists|draw: u32| draw < DRAW_BOUND && escaped == #[trigger] old(self).escapes_on(draw),
            old(self).never_escapes() ==> !escaped,
            old(self).always_escapes() ==> escaped,
    {
        match self {
            Prey::Minnow(minnow) => {
                let ghost before = *minnow;
                let escaped = minnow.try_escape(crab);
                proof {
                    let draw = choose|draw: u32|
                        draw < DRAW_BOUND && escaped == #[trigger] before.escapes_on(draw);
                    assert(escaped == old(self).escapes_on(draw));
                }
                escaped
            },
            Prey::Shrimp(shrimp) => {
                let escaped = shrimp.try_escape(crab);
                assert(escaped == old(self).escapes_on(0));
                escaped
            },
            Prey::Clam(clam) => {
                let escaped = clam.try_escape(crab);
                assert(escaped == old(self).escapes_on(0));
                escaped
            },
            Prey::Algae(algae) => {
                let escaped = algae.try_escape(crab);
                assert(escaped == old(self).escapes_on(0));
                escaped
            },
        }
    }
}

/// An attempt changes neither what a prey is eaten as nor what it is with
/// its energy spent.
pub proof fn lemma_attempt_keeps_the_prey(prey: Prey)
    ensures
        prey.after_attempt().diet() == prey.diet(),
        prey.after_attempt().spent() == prey.spent(),
{
}

/// Which prey never escape and which always do, kind by kind.
pub proof fn lemma_sure_and_elusive(prey: Prey)
    ensures
        prey.never_escapes() == (match prey {
            Prey::Minnow(minnow) => minnow.speed == 0,
            Prey::Shrimp(shrimp) => shrimp.energy == 0,
            Prey::Clam(_) => true,
            Prey::Algae(_) => true,
        }),
        prey.always_escapes() == (match prey {
            Prey::Minnow(minnow) => minnow.speed >= DRAW_BOUND,
            Prey::Shrimp(shrimp) => shrimp.energy > 0,
            Prey::Clam(_) => false,
            Prey::Algae(_) => false,
        }),
{
    if prey.never_escapes() {
        assert(!prey.escapes_on(0));
    }
    if prey.always_escapes() {
        assert(prey.escapes_on(99));
    }
}

} // verus!
