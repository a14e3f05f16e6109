//! Diet tags: what a crab eats, and what a prey counts as.

use crate::chance::random_below;
use vstd::pervasive::unreached;
use vstd::prelude::*;

verus! {

/// What a crab prefers to eat, and what a prey is eaten as.
#[derive(Clone, Copy, Debug, PartialEq, Eq, Structural)]
pub enum Diet {
    Fish,
    Plants,
    Shellfish,
}

/// The number of diet tags.
pub const DIET_COUNT: u32 = 3;

impl Diet {
    /// The tag at position `index` in the order of declaration.
    pub open spec fn at(index: int) -> Diet
        recommends
            0 <= index < DIET_COUNT,
    {
        if index == 0 {
            Diet::Fish
        } else if index == 1 {
            Diet::Plants
        } else {
            Diet::Shellfish
        }
    }

    /// The position of a tag in the order of declaration.
    pub open spec fn index(self) -> int {
        match self {
            Diet::Fish => 0,
            Diet::Plants => 1,
            Diet::Shellfish => 2,
        }
    }

    /// The tag at position `index`, or `None` where there is no such tag.
    pub fn from_index(index: u32) -> (tag: Option<Diet>)
        ensures
            index < DIET_COUNT ==> tag == Some(Diet::at(index as int)),
            index >= DIET_COUNT ==> tag is None,
    {
        if index == 0 {
            Some(Diet::Fish)
        } else if index == 1 {
            Some(Diet::Plants)
        } else if index == 2 {
            Some(Diet::Shellfish)
        } else {
            None
        }
    }

    /// A tag picked by one uniform draw over the positions of the tags.
    ///
    /// Which tag comes back is up to the draw; that it is one of the
    /// `DIET_COUNT` tags is all that can be said in advance.
    pub fn random_diet() -> (tag: Diet)
        ensures
            exists|index: int| 0 <= index < DIET_COUNT && tag == Diet::at(index),
    {
        let draw: u32 = random_below(DIET_COUNT);
        match Diet::from_index(draw) {
            Some(tag) => tag,
            None => unreached(),
        }
    }
}

/// Positions and tags correspond one to one.
pub proof fn lemma_diet_positions(tag: Diet)
    ensures
        0 <= tag.index() < DIET_COUNT,
        Diet::at(tag.index()) == tag,
{
}

} // verus!
