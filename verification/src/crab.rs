//! Crabs: the hunters.

use crate::color::Color;
use crate::cookbook::{first_suiting, lemma_first_suiting_from, Cookbook, Recipe};
use crate::diet::{Diet, DIET_COUNT};
use crate::hunting::{
    census, drawn, fair, hunt_from, hunt_outcome, later_draws, origins, released, released_all,
    search, stocks, total_population, within, Catch, Outcome,
};
use crate::hunting::{lemma_first_match_is, lemma_first_stocked_is, lemma_search};
use crate::laws::{only_elusive_prey, sure_prey};
use crate::laws::{
    hunt_conserves_population, only_elusive_prey_is_not_caught, sure_prey_is_caught,
};
use crate::prey::{Prey, DRAW_BOUND};
use crate::reef::Reef;
use vstd::prelude::*;

verus! {

/// A crab. It eats one kind of food and forages in the reefs it has
/// discovered, which it knows by their index in the arena of reefs.
#[derive(Debug)]
pub struct Crab {
    pub name: String,
    pub speed: u32,
    pub color: Color,
    pub diet: Diet,
    pub reefs: Vec<usize>,
}

impl Crab {
    /// A crab that knows no reef yet.
    pub fn new(name: String, speed: u32, color: Color, diet: Diet) -> (crab: Crab)
        ensures
            crab.name == name,
            crab.speed == speed,
            crab.color == color,
            crab.diet == diet,
            crab.reefs@ == Seq::<usize>::empty(),
    {
        Crab { name, speed, color, diet, reefs: Vec::new() }
    }

    pub fn name(&self) -> (name: &str)
        ensures
            name@ == self.name@,
    {
        self.name.as_str()
    }

    pub fn speed(&self) -> (speed: u32)
        ensures
            speed == self.speed,
    {
        self.speed
    }

    pub fn color(&self) -> (color: &Color)
        ensures
            *color == self.color,
    {
        &self.color
    }

    /// What this crab eats.
    pub fn diet(&self) -> (diet: Diet)
        ensures
            diet == self.diet,
    {
        self.diet
    }

    /// The reefs this crab forages, by their index in the arena, in the
    /// order of discovery.
    pub fn reefs(&self) -> (reefs: &Vec<usize>)
        ensures
            *reefs == self.reefs,
    {
        &self.reefs
    }

    /// The child of two crabs, called `name`. It starts with a speed of one
    /// and knows no reef; its color is the parents' colors crossed; its diet
    /// is drawn at random among the diet tags, whatever the parents eat.
    pub fn breed(crab1: &Crab, crab2: &Crab, name: String) -> (child: Crab)
        ensures
            child.name == name,
            child.speed == 1,
            child.color == Color::crossed(crab1.color, crab2.color),
            child.reefs@ == Seq::<usize>::empty(),
            exists|index: int| 0 <= index < DIET_COUNT && child.diet == Diet::at(index),
    {
        Crab {
            name,
            speed: 1,
            color: Color::cross(crab1.color(), crab2.color()),
            diet: Diet::random_diet(),
            reefs: Vec::new(),
        }
    }

    /// Has this crab discover the reef at index `reef` of the arena: it
    /// forages there from now on, after the reefs it knew before.
    pub fn discover_reef(&mut self, reef: usize)
        ensures
            final(self).reefs@ == old(self).reefs@.push(reef),
            final(self).name == old(self).name,
            final(self).speed == old(self).speed,
            final(self).color == old(self).color,
            final(self).diet == old(self).diet,
    {
        self.reefs.push(reef);
    }

    /// Whether every reef this crab forages is one of the first
    /// `reef_count` reefs, as hunting in an arena of that many reefs asks.
    pub fn forages_within(&self, reef_count: usize) -> (ok: bool)
        ensures
            ok == within(self.reefs@, reef_count as nat),
    {
        let mut position: usize = 0;
        while position < self.reefs.len()
            invariant
                0 <= position <= self.reefs@.len(),
                forall|i: int| 0 <= i < position ==> self.reefs@[i] < reef_count,
            decreases self.reefs@.len() - position,
        {
            if self.reefs[position] >= reef_count {
                return false;
            }
            position = position + 1;
        }
        true
    }

    /// The first recipe of `cookbook` that suits this crab's diet, or `None`
    /// where no recipe does.
    pub fn choose_recipe<'a, 'b>(&'a self, cookbook: &'b Cookbook) -> (choice: Option<&'b Recipe>)
        ensures
            first_suiting(cookbook.recipes@, self.diet) < cookbook.recipes@.len() ==> choice
                == Some(&cookbook.recipes@[first_suiting(cookbook.recipes@, self.diet)]),
            first_suiting(cookbook.recipes@, self.diet) >= cookbook.recipes@.len() ==> choice
                is None,
    {
        proof {
            lemma_first_suiting_from(cookbook.recipes@, self.diet, 0);
        }
        let mut index: usize = 0;
        while index < cookbook.recipes.len()
            invariant
                0 <= index <= cookbook.recipes@.len(),
                index <= first_suiting(cookbook.recipes@, self.diet) <= cookbook.recipes@.len(),
                forall|j: int|
                    0 <= j < first_suiting(cookbook.recipes@, self.diet) ==> (
                    #[trigger] cookbook.recipes@[j]).diet != self.diet,
                first_suiting(cookbook.recipes@, self.diet) < cookbook.recipes@.len()
                    ==> cookbook.recipes@[first_suiting(cookbook.recipes@, self.diet)].diet
                    == self.diet,
            decreases cookbook.recipes@.len() - index,
        {
            if cookbook.recipes[index].diet() == self.diet() {
                return Some(&cookbook.recipes[index]);
            }
            index = index + 1;
        }
        None
    }

    /// One search through the reefs this crab forages, in the order of
    /// discovery, for a prey that it eats.
    ///
    /// In each reef it takes as many prey as the reef holds when it gets
    /// there, one at a time, and puts back at once each that it does not
    /// eat. It returns the first prey that it eats, with the position of
    /// that prey's reef in the crab's list; that prey is then out of the
    /// reef. Where no reef holds a prey that it eats, it returns `None` and
    /// every reef is as it was.
    pub fn catch_prey(&self, reefs: &mut Vec<Reef>) -> (found: Option<(Prey, usize)>)
        requires
            within(self.reefs@, old(reefs)@.len()),
        ensures
            final(reefs)@.len() == old(reefs)@.len(),
            match search(self.reefs@, census(old(reefs)@), self.diet) {
                Some(find) => {
                    &&& found matches Some(pair)
                    &&& pair.0 == find.prey
                    &&& pair.1 == find.position
                    &&& census(final(reefs)@) == find.waters
                },
                None => found is None && census(final(reefs)@) == census(old(reefs)@),
            },
    {
        let ghost before = census(reefs@);
        let mut position: usize = 0;
        while position < self.reefs.len()
            invariant
                0 <= position <= self.reefs@.len(),
                within(self.reefs@, reefs@.len()),
                before == census(old(reefs)@),
                census(reefs@) == before,
                forall|i: int|
                    0 <= i < position ==> !stocks(
                        before[(#[trigger] self.reefs@[i]) as int],
                        self.diet,
                    ),
            decreases self.reefs@.len() - position,
        {
            let handle: usize = self.reefs[position];
            let size: usize = reefs[handle].population();
            let ghost origin = before[handle as int];
            let mut tried: usize = 0;
            while tried < size
                invariant
                    0 <= tried <= size,
                    size == origin.len(),
                    handle < reefs@.len(),
                    before == census(old(reefs)@),
                    reefs@.len() == before.len(),
                    origin == before[handle as int],
                    forall|r: int|
                        0 <= r < reefs@.len() && r != handle ==> (#[trigger] reefs@[r])@
                            == before[r],
                    reefs@[handle as int]@ == origin.subrange(tried as int, size as int)
                        + origin.subrange(0, tried as int),
                    forall|j: int| 0 <= j < tried ==> (#[trigger] origin[j]).diet() != self.diet,
                    position < self.reefs@.len(),
                    handle == self.reefs@[position as int],
                    forall|i: int|
                        0 <= i < position ==> !stocks(
                            before[(#[trigger] self.reefs@[i]) as int],
                            self.diet,
                        ),
                decreases size - tried,
            {
                match reefs[handle].take_prey() {
                    Some(prey) => {
                        if prey.diet() == self.diet {
                            proof {
                                lemma_first_match_is(origin, self.diet, tried as int);
                                lemma_first_stocked_is(
                                    self.reefs@,
                                    before,
                                    self.diet,
                                    position as int,
                                );
                                assert(reefs@[handle as int]@ =~= drawn(origin, tried as int));
                            }
                            return Some((prey, position));
                        } else {
                            reefs[handle].add_prey(prey);
                        }
                    },
                    None => {},
                }
                tried = tried + 1;
            }
            proof {
                lemma_first_match_is(origin, self.diet, size as int);
            }
            position = position + 1;
        }
        proof {
            lemma_first_stocked_is(self.reefs@, before, self.diet, self.reefs@.len() as int);
        }
        None
    }

    /// Releases `prey` into the reef at position `reef_index` of this crab's
    /// list, where it waits behind all the others.
    pub fn release_prey(&self, reefs: &mut Vec<Reef>, prey: Prey, reef_index: usize)
        requires
            reef_index < self.reefs@.len(),
            within(self.reefs@, old(reefs)@.len()),
        ensures
            final(reefs)@.len() == old(reefs)@.len(),
            census(final(reefs)@) == released(
                census(old(reefs)@),
                self.reefs@[reef_index as int] as int,
                prey,
            ),
    {
        let handle: usize = self.reefs[reef_index];
        reefs[handle].add_prey(prey);
    }

    /// Has this crab go hunting in the reefs it forages. Returns whether it
    /// caught a prey.
    ///
    /// The crab searches for a prey that it eats and tries to catch it. A
    /// prey that gets away is held aside, and the crab searches again, until
    /// a prey does not get away or a search finds nothing. Before the hunt
    /// returns, every prey that got away is back in the reef that it was
    /// taken from, in the order of escape. The prey that was caught is gone.
    ///
    /// Escapes are a matter of luck, so the contract says that the hunt ends
    /// as [`hunt_outcome`] says for some sequence of draws below
    /// [`DRAW_BOUND`], one for each attempt. Whatever the draws, no prey is
    /// made or lost, the hunt succeeds where a prey that the crab eats cannot
    /// escape, and fails where all of them are sure to.
    pub fn hunt(&mut self, reefs: &mut Vec<Reef>) -> (caught: bool)
        requires
            within(old(self).reefs@, old(reefs)@.len()),
        ensures
            *final(self) == *old(self),
            final(reefs)@.len() == old(reefs)@.len(),
            total_population(census(final(reefs)@)) + (if caught {
                1nat
            } else {
                0nat
            }) == total_population(census(old(reefs)@)),
            sure_prey(old(self).reefs@, census(old(reefs)@), old(self).diet) ==> caught,
            only_elusive_prey(old(self).reefs@, census(old(reefs)@), old(self).diet) ==> !caught,
            exists|draws: Seq<u32>|
                {
                    let outcome = #[trigger] hunt_outcome(
                        old(self).reefs@,
                        old(self).diet,
                        census(old(reefs)@),
                        draws,
                    );
                    &&& fair(draws)
                    &&& caught == outcome.catch.is_some()
                    &&& census(final(reefs)@) == outcome.waters
                },
    {
        let ghost handles = self.reefs@;
        let ghost diet = self.diet;
        let ghost start = census(reefs@);
        let ghost mut used: Seq<u32> = Seq::empty();
        let ghost mut catch: Option<Catch> = None;
        let mut escaped: Vec<(Prey, usize)> = Vec::new();
        let mut caught = false;
        assert(origins(handles, escaped@) =~= Seq::empty());
        assert forall|rest: Seq<u32>| used + rest == rest by {}
        // Whatever draws are still to come: the hunt from the start, on the
        // draws made so far and then on those, ends as the hunt from here on
        // those.
        loop
            invariant_except_break
                !caught,
                catch is None,
                forall|rest: Seq<u32>|
                    hunt_from(handles, diet, start, Seq::empty(), used + rest)
                        == #[trigger] hunt_from(
                        handles,
                        diet,
                        census(reefs@),
                        origins(handles, escaped@),
                        rest,
                    ),
            invariant
                *self == *old(self),
                handles == self.reefs@,
                diet == self.diet,
                start == census(old(reefs)@),
                reefs@.len() == old(reefs)@.len(),
                within(handles, reefs@.len()),
                fair(used),
                forall|i: int|
                    0 <= i < escaped@.len() ==> (#[trigger] escaped@[i]).1 < handles.len(),
            ensures
                caught == catch.is_some(),
                hunt_from(handles, diet, start, Seq::empty(), used) == (Outcome {
                    catch,
                    waters: released_all(census(reefs@), origins(handles, escaped@)),
                }),
            decreases total_population(census(reefs@)),
        {
            let ghost waters = census(reefs@);
            let ghost held = origins(handles, escaped@);
            proof {
                lemma_search(handles, waters, diet);
            }
            match self.catch_prey(reefs) {
                None => {
                    proof {
                        assert(hunt_from(handles, diet, start, Seq::empty(), used) == hunt_from(
                            handles,
                            diet,
                            waters,
                            held,
                            Seq::empty(),
                        ));
                    }
                    break ;
                },
                Some(pair) => {
                    let (mut prey, position) = pair;
                    let ghost found = prey;
                    let got_away = prey.try_escape(&*self);
                    let ghost draw = choose|draw: u32|
                        draw < DRAW_BOUND && got_away == #[trigger] found.escapes_on(draw);
                    let ghost earlier = used;
                    proof {
                        used = earlier.push(draw);
                    }
                    if got_away {
                        escaped.push((prey, position));
                        proof {
                            assert(origins(handles, escaped@) =~= held.push(
                                (prey, handles[position as int] as int),
                            ));
                            assert forall|rest: Seq<u32>|
                                hunt_from(
                                    handles,
                                    diet,
                                    start,
                                    Seq::empty(),
                                    used + rest,
                                ) == #[trigger] hunt_from(
                                    handles,
                                    diet,
                                    census(reefs@),
                                    origins(handles, escaped@),
                                    rest,
                                ) by {
                                let longer = seq![draw] + rest;
                                assert(used + rest =~= earlier + longer);
                                assert(later_draws(longer) =~= rest);
                                assert(hunt_from(handles, diet, waters, held, longer) == hunt_from(
                                    handles,
                                    diet,
                                    census(reefs@),
                                    origins(handles, escaped@),
                                    rest,
                                ));
                            }
                        }
                    } else {
                        proof {
                            catch = Some(Catch { prey, reef: handles[position as int] as int });
                            let last = seq![draw];
                            assert(hunt_from(handles, diet, start, Seq::empty(), used)
                                == hunt_from(handles, diet, waters, held, last));
                        }
                        caught = true;
                        break ;
                    }
                },
            }
        }
        let ghost held = escaped@;
        let ghost bound = origins(handles, held);
        let ghost target = released_all(census(reefs@), bound);
        assert(bound.skip(0) =~= bound);
        for pair in it: escaped
            invariant
                it.seq() == held,
                handles == self.reefs@,
                reefs@.len() == old(reefs)@.len(),
                within(handles, reefs@.len()),
                forall|i: int| 0 <= i < held.len() ==> (#[trigger] held[i]).1 < handles.len(),
                bound == origins(handles, held),
                released_all(census(reefs@), bound.skip(it.index())) == target,
        {
            assert(bound.skip(it.index()).drop_first() =~= bound.skip(it.index() + 1));
            self.release_prey(reefs, pair.0, pair.1);
        }
        proof {
            hunt_conserves_population(handles, diet, start, used);
            if sure_prey(handles, start, diet) {
                sure_prey_is_caught(handles, diet, start, used);
            }
            if only_elusive_prey(handles, start, diet) {
                only_elusive_prey_is_not_caught(handles, diet, start, used);
            }
        }
        caught
    }
}

} // verus!
