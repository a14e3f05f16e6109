//! What holds of every search and of every hunt, whatever the draws.
//!
//! The statements here are about [`search`], which is what `Crab::catch_prey`
//! is proved to do, and about [`hunt_outcome`], which is how `Crab::hunt` is
//! proved to end for the draws that were made. They hold for every arena,
//! every crab and every sequence of draws.

use crate::diet::Diet;
use crate::hunting::{
    drawn, fair, first_match, hunt_from, hunt_outcome, later_draws, next_draw, released,
    released_all, search, stocks, total_population, within, Outcome,
};
use crate::hunting::{
    lemma_first_match_from, lemma_first_stocked_from, lemma_search, lemma_total_population_update,
};
use crate::prey::Prey;
use vstd::multiset::Multiset;
use vstd::prelude::*;
use vstd::seq_lib::{
    lemma_seq_union_to_multiset_commutative, to_multiset_build, to_multiset_contains,
    to_multiset_len, to_multiset_remove,
};

verus! {

/// Every escaped prey is kept with the index of one of the first `count`
/// reefs.
pub open spec fn fits(escaped: Seq<(Prey, int)>, count: nat) -> bool {
    forall|i: int| 0 <= i < escaped.len() ==> 0 <= (#[trigger] escaped[i]).1 < count
}

/// One for a hunt that caught a prey, zero for one that did not.
pub open spec fn catches(outcome: Outcome) -> nat {
    if outcome.catch is Some {
        1
    } else {
        0
    }
}

/// None of the reefs that `handles` names holds a prey that is eaten as
/// `diet`.
pub open spec fn nothing_to_eat(handles: Seq<usize>, waters: Seq<Seq<Prey>>, diet: Diet) -> bool {
    forall|i: int| 0 <= i < handles.len() ==> !stocks(waters[(#[trigger] handles[i]) as int], diet)
}

/// Releasing the escaped prey keeps the number of reefs and adds them all
/// to the total.
proof fn lemma_released_all_total(waters: Seq<Seq<Prey>>, escaped: Seq<(Prey, int)>)
    requires
        fits(escaped, waters.len()),
    ensures
        released_all(waters, escaped).len() == waters.len(),
        total_population(released_all(waters, escaped)) == total_population(waters)
            + escaped.len(),
    decreases escaped.len(),
{
    if escaped.len() > 0 {
        let reef = escaped[0].1;
        let next = released(waters, reef, escaped[0].0);
        lemma_total_population_update(waters, reef, waters[reef].push(escaped[0].0));
        assert forall|i: int| 0 <= i < escaped.drop_first().len() implies 0 <= (
        #[trigger] escaped.drop_first()[i]).1 < next.len() by {}
        lemma_released_all_total(next, escaped.drop_first());
    }
}

/// From any moment of a hunt on, the prey in the reefs, the prey held
/// aside and the catch add up.
proof fn lemma_hunt_from_total(
    handles: Seq<usize>,
    diet: Diet,
    waters: Seq<Seq<Prey>>,
    escaped: Seq<(Prey, int)>,
    draws: Seq<u32>,
)
    requires
        within(handles, waters.len()),
        fits(escaped, waters.len()),
    ensures
        hunt_from(handles, diet, waters, escaped, draws).waters.len() == waters.len(),
        total_population(hunt_from(handles, diet, waters, escaped, draws).waters) + catches(
            hunt_from(handles, diet, waters, escaped, draws),
        ) == total_population(waters) + escaped.len(),
        hunt_from(handles, diet, waters, escaped, draws).catch matches Some(catch) ==> {
            &&& catch.prey.diet() == diet
            &&& exists|i: int| 0 <= i < handles.len() && #[trigger] handles[i] == catch.reef
        },
    decreases total_population(waters),
{
    lemma_search(handles, waters, diet);
    match search(handles, waters, diet) {
        None => {
            lemma_released_all_total(waters, escaped);
        },
        Some(find) => {
            if find.prey.escapes_on(next_draw(draws)) {
                let held = escaped.push((find.prey.after_attempt(), handles[find.position] as int));
                lemma_hunt_from_total(
                    handles,
                    diet,
                    find.waters,
                    held,
                    later_draws(draws),
                );
            } else {
                lemma_released_all_total(find.waters, escaped);
            }
        },
    }
}

/// A hunt neither makes nor loses prey: the reefs hold after it what they
/// held before, less the one prey of a successful hunt.
pub proof fn hunt_conserves_population(
    handles: Seq<usize>,
    diet: Diet,
    waters: Seq<Seq<Prey>>,
    draws: Seq<u32>,
)
    requires
        within(handles, waters.len()),
    ensures
        hunt_outcome(handles, diet, waters, draws).waters.len() == waters.len(),
        total_population(hunt_outcome(handles, diet, waters, draws).waters) + catches(
            hunt_outcome(handles, diet, waters, draws),
        ) == total_population(waters),
{
    lemma_hunt_from_total(handles, diet, waters, Seq::empty(), draws);
}

/// What a hunt catches is eaten as the crab's diet, and comes from a reef
/// that the crab forages.
pub proof fn catch_matches_diet(
    handles: Seq<usize>,
    diet: Diet,
    waters: Seq<Seq<Prey>>,
    draws: Seq<u32>,
)
    requires
        within(handles, waters.len()),
    ensures
        hunt_outcome(handles, diet, waters, draws).catch matches Some(catch) ==> {
            &&& catch.prey.diet() == diet
            &&& exists|i: int| 0 <= i < handles.len() && #[trigger] handles[i] == catch.reef
        },
{
    lemma_hunt_from_total(handles, diet, waters, Seq::empty(), draws);
}

/// A crab that forages no reef catches nothing and leaves every reef as it
/// was.
pub proof fn no_reefs_no_catch(diet: Diet, waters: Seq<Seq<Prey>>, draws: Seq<u32>)
    ensures
        hunt_outcome(Seq::empty(), diet, waters, draws) == (Outcome { catch: None, waters }),
{
}

/// Where none of the crab's reefs holds a prey that it eats, the hunt fails
/// and every reef is as it was, prey for prey.
pub proof fn nothing_to_eat_nothing_moves(
    handles: Seq<usize>,
    diet: Diet,
    waters: Seq<Seq<Prey>>,
    draws: Seq<u32>,
)
    requires
        within(handles, waters.len()),
        nothing_to_eat(handles, waters, diet),
    ensures
        hunt_outcome(handles, diet, waters, draws) == (Outcome { catch: None, waters }),
{
    lemma_first_stocked_from(handles, waters, diet, 0);
}

/// One of the reefs that `handles` names holds a prey that is eaten as
/// `diet` and never escapes.
pub open spec fn sure_prey(handles: Seq<usize>, waters: Seq<Seq<Prey>>, diet: Diet) -> bool {
    exists|i: int, k: int|
        0 <= i < handles.len() && 0 <= k < waters[handles[i] as int].len() && (
        #[trigger] waters[handles[i] as int][k]).diet() == diet
            && waters[handles[i] as int][k].never_escapes()
}

/// Every prey of the reefs that `handles` names that is eaten as `diet`
/// always escapes from the next attempt.
pub open spec fn only_elusive_prey(
    handles: Seq<usize>,
    waters: Seq<Seq<Prey>>,
    diet: Diet,
) -> bool {
    forall|i: int, k: int|
        0 <= i < handles.len() && 0 <= k < waters[handles[i] as int].len() && (
        #[trigger] waters[handles[i] as int][k]).diet() == diet
            ==> waters[handles[i] as int][k].always_escapes()
}

/// A reef that a prey was drawn out of holds the other prey, each at the
/// place that this gives.
proof fn lemma_drawn_holds_the_rest(reef: Seq<Prey>, index: int)
    requires
        0 <= index < reef.len(),
    ensures
        drawn(reef, index).len() == reef.len() - 1,
        forall|k: int|
            index < k < reef.len() ==> drawn(reef, index)[k - index - 1] == #[trigger] reef[k],
        forall|k: int|
            0 <= k < index ==> drawn(reef, index)[reef.len() - index - 1 + k] == #[trigger] reef[k],
        forall|j: int|
            0 <= j < reef.len() - index - 1 ==> #[trigger] drawn(reef, index)[j] == reef[j + index
                + 1],
        forall|j: int|
            reef.len() - index - 1 <= j < reef.len() - 1 ==> #[trigger] drawn(reef, index)[j]
                == reef[j - (reef.len() - index - 1)],
{
}

/// From any moment of a hunt on: where a reef of the crab holds a prey that
/// it eats and that never escapes, the hunt ends with a catch.
proof fn lemma_hunt_from_sure_prey(
    handles: Seq<usize>,
    diet: Diet,
    waters: Seq<Seq<Prey>>,
    escaped: Seq<(Prey, int)>,
    draws: Seq<u32>,
)
    requires
        within(handles, waters.len()),
        fair(draws),
        sure_prey(handles, waters, diet),
    ensures
        hunt_from(handles, diet, waters, escaped, draws).catch is Some,
    decreases total_population(waters),
{
    lemma_search(handles, waters, diet);
    lemma_first_stocked_from(handles, waters, diet, 0);
    let (i, k) = choose|i: int, k: int|
        0 <= i < handles.len() && 0 <= k < waters[handles[i] as int].len() && (
        #[trigger] waters[handles[i] as int][k]).diet() == diet
            && waters[handles[i] as int][k].never_escapes();
    let sure = waters[handles[i] as int][k];
    match search(handles, waters, diet) {
        None => {
            lemma_first_match_from(waters[handles[i] as int], diet, 0);
        },
        Some(find) => {
            if find.prey.escapes_on(next_draw(draws)) {
                let origin = handles[find.position] as int;
                lemma_first_match_from(waters[origin], diet, 0);
                let index = first_match(waters[origin], diet);
                lemma_drawn_holds_the_rest(waters[origin], index);
                // The prey that got away is not the sure one, which is
                // therefore still in its reef, if at another place.
                let place = if handles[i] as int != origin {
                    k
                } else if k > index {
                    k - index - 1
                } else {
                    waters[origin].len() - index - 1 + k
                };
                assert(find.waters[handles[i] as int][place] == sure);
                assert(sure_prey(handles, find.waters, diet));
                lemma_hunt_from_sure_prey(
                    handles,
                    diet,
                    find.waters,
                    escaped.push((find.prey.after_attempt(), origin)),
                    later_draws(draws),
                );
            }
        },
    }
}

/// From any moment of a hunt on: where every prey that the crab eats, in
/// any of its reefs, always escapes, the hunt ends without a catch.
proof fn lemma_hunt_from_only_elusive_prey(
    handles: Seq<usize>,
    diet: Diet,
    waters: Seq<Seq<Prey>>,
    escaped: Seq<(Prey, int)>,
    draws: Seq<u32>,
)
    requires
        within(handles, waters.len()),
        fair(draws),
        only_elusive_prey(handles, waters, diet),
    ensures
        hunt_from(handles, diet, waters, escaped, draws).catch is None,
    decreases total_population(waters),
{
    lemma_search(handles, waters, diet);
    lemma_first_stocked_from(handles, waters, diet, 0);
    match search(handles, waters, diet) {
        None => {},
        Some(find) => {
            let origin = handles[find.position] as int;
            lemma_first_match_from(waters[origin], diet, 0);
            let index = first_match(waters[origin], diet);
            lemma_drawn_holds_the_rest(waters[origin], index);
            assert forall|i: int, k: int|
                0 <= i < handles.len() && 0 <= k < find.waters[handles[i] as int].len() && (
                #[trigger] find.waters[handles[i] as int][k]).diet()
                    == diet implies find.waters[handles[i] as int][k].always_escapes() by {}
            lemma_hunt_from_only_elusive_prey(
                handles,
                diet,
                find.waters,
                escaped.push((find.prey.after_attempt(), origin)),
                later_draws(draws),
            );
        },
    }
}

/// A hunt succeeds, whatever the draws, where one of the crab's reefs holds
/// a prey that it eats and that never escapes.
pub proof fn sure_prey_is_caught(
    handles: Seq<usize>,
    diet: Diet,
    waters: Seq<Seq<Prey>>,
    draws: Seq<u32>,
)
    requires
        within(handles, waters.len()),
        fair(draws),
        sure_prey(handles, waters, diet),
    ensures
        hunt_outcome(handles, diet, waters, draws).catch is Some,
{
    lemma_hunt_from_sure_prey(handles, diet, waters, Seq::empty(), draws);
}

/// A hunt fails, whatever the draws, where every prey that the crab eats,
/// in any of its reefs, always escapes.
pub proof fn only_elusive_prey_is_not_caught(
    handles: Seq<usize>,
    diet: Diet,
    waters: Seq<Seq<Prey>>,
    draws: Seq<u32>,
)
    requires
        within(handles, waters.len()),
        fair(draws),
        only_elusive_prey(handles, waters, diet),
    ensures
        hunt_outcome(handles, diet, waters, draws).catch is None,
{
    lemma_hunt_from_only_elusive_prey(handles, diet, waters, Seq::empty(), draws);
}

/// The residents of a reef, without regard to their order or to the energy
/// that they have left.
pub open spec fn tally(reef: Seq<Prey>) -> Multiset<Prey> {
    reef.map_values(|prey: Prey| prey.spent()).to_multiset()
}

/// The escaped prey that were taken from the reef at index `reef`, without
/// regard to their order or to the energy that they have left.
pub open spec fn held_tally(escaped: Seq<(Prey, int)>, reef: int) -> Multiset<Prey>
    decreases escaped.len(),
{
    if escaped.len() == 0 {
        Multiset::empty()
    } else {
        let rest = held_tally(escaped.drop_first(), reef);
        if escaped[0].1 == reef {
            rest.insert(escaped[0].0.spent())
        } else {
            rest
        }
    }
}

/// The catch, where it was taken from the reef at index `reef`.
pub open spec fn catch_tally(outcome: Outcome, reef: int) -> Multiset<Prey> {
    match outcome.catch {
        Some(catch) => if catch.reef == reef {
            Multiset::singleton(catch.prey.spent())
        } else {
            Multiset::empty()
        },
        None => Multiset::empty(),
    }
}

/// A prey that joins a reef joins its tally.
proof fn lemma_tally_push(reef: Seq<Prey>, prey: Prey)
    ensures
        tally(reef.push(prey)) == tally(reef).insert(prey.spent()),
{
    let spent = |prey: Prey| prey.spent();
    assert(reef.push(prey).map_values(spent) =~= reef.map_values(spent).push(prey.spent()));
    to_multiset_build(reef.map_values(spent), prey.spent());
}

/// A prey that a search draws out of a reef leaves its tally, and nothing
/// else does.
proof fn lemma_tally_drawn(reef: Seq<Prey>, index: int)
    requires
        0 <= index < reef.len(),
    ensures
        tally(reef) == tally(drawn(reef, index)).insert(reef[index].spent()),
{
    let spent = |prey: Prey| prey.spent();
    let all = reef.map_values(spent);
    let front = all.subrange(0, index);
    let back = all.subrange(index + 1, all.len() as int);
    assert(drawn(reef, index).map_values(spent) =~= back + front);
    to_multiset_remove(all, index);
    lemma_seq_union_to_multiset_commutative(front, back);
    to_multiset_contains(all, all[index]);
}

/// The tally of a reef counts its residents.
proof fn lemma_tally_len(reef: Seq<Prey>)
    ensures
        tally(reef).len() == reef.len(),
{
    to_multiset_len(reef.map_values(|prey: Prey| prey.spent()));
}

/// One more escaped prey joins the tally of those held aside for its reef.
proof fn lemma_held_tally_push(escaped: Seq<(Prey, int)>, entry: (Prey, int), reef: int)
    ensures
        held_tally(escaped.push(entry), reef) == if entry.1 == reef {
            held_tally(escaped, reef).insert(entry.0.spent())
        } else {
            held_tally(escaped, reef)
        },
    decreases escaped.len(),
{
    if escaped.len() == 0 {
        assert(escaped.push(entry).drop_first() =~= escaped);
    } else {
        assert(escaped.push(entry).drop_first() =~= escaped.drop_first().push(entry));
        lemma_held_tally_push(escaped.drop_first(), entry, reef);
    }
}

/// The release brings each escaped prey back to its own reef.
proof fn lemma_released_all_tally(waters: Seq<Seq<Prey>>, escaped: Seq<(Prey, int)>, reef: int)
    requires
        fits(escaped, waters.len()),
        0 <= reef < waters.len(),
    ensures
        tally(released_all(waters, escaped)[reef]) == tally(waters[reef]).add(
            held_tally(escaped, reef),
        ),
    decreases escaped.len(),
{
    if escaped.len() > 0 {
        let origin = escaped[0].1;
        let next = released(waters, origin, escaped[0].0);
        assert forall|i: int| 0 <= i < escaped.drop_first().len() implies 0 <= (
        #[trigger] escaped.drop_first()[i]).1 < next.len() by {}
        lemma_released_all_tally(next, escaped.drop_first(), reef);
        if origin == reef {
            lemma_tally_push(waters[reef], escaped[0].0);
        }
    }
}

/// From any moment of a hunt on, each reef ends with the prey that it
/// holds and those held aside for it, less the catch where it is the
/// catch's reef.
proof fn lemma_hunt_from_tally(
    handles: Seq<usize>,
    diet: Diet,
    waters: Seq<Seq<Prey>>,
    escaped: Seq<(Prey, int)>,
    draws: Seq<u32>,
    reef: int,
)
    requires
        within(handles, waters.len()),
        fits(escaped, waters.len()),
        0 <= reef < waters.len(),
    ensures
        tally(hunt_from(handles, diet, waters, escaped, draws).waters[reef]).add(
            catch_tally(hunt_from(handles, diet, waters, escaped, draws), reef),
        ) == tally(waters[reef]).add(held_tally(escaped, reef)),
    decreases total_population(waters),
{
    lemma_search(handles, waters, diet);
    match search(handles, waters, diet) {
        None => {
            lemma_released_all_tally(waters, escaped, reef);
        },
        Some(find) => {
            let origin = handles[find.position] as int;
            lemma_first_stocked_from(handles, waters, diet, 0);
            lemma_first_match_from(waters[origin], diet, 0);
            let index = first_match(waters[origin], diet);
            lemma_tally_drawn(waters[origin], index);
            if find.prey.escapes_on(next_draw(draws)) {
                let entry = (find.prey.after_attempt(), origin);
                lemma_held_tally_push(escaped, entry, reef);
                lemma_hunt_from_tally(
                    handles,
                    diet,
                    find.waters,
                    escaped.push(entry),
                    later_draws(draws),
                    reef,
                );
            } else {
                lemma_released_all_tally(find.waters, escaped, reef);
            }
        },
    }
}

/// Every prey stays where it belongs: after a hunt each reef holds the prey
/// that it held before, less the catch where it was taken from that reef.
/// A prey is told by what it is with its energy spent; the order in the
/// reef and the energy left may have changed.
pub proof fn hunt_keeps_prey_in_place(
    handles: Seq<usize>,
    diet: Diet,
    waters: Seq<Seq<Prey>>,
    draws: Seq<u32>,
    reef: int,
)
    requires
        within(handles, waters.len()),
        0 <= reef < waters.len(),
    ensures
        tally(hunt_outcome(handles, diet, waters, draws).waters[reef]).add(
            catch_tally(hunt_outcome(handles, diet, waters, draws), reef),
        ) == tally(waters[reef]),
{
    lemma_hunt_from_tally(handles, diet, waters, Seq::empty(), draws, reef);
}

/// A hunt that fails leaves each reef with as many prey as it had, however
/// many got away in between; one that succeeds takes one prey from the
/// catch's reef and none from the others.
pub proof fn hunt_restores_each_population(
    handles: Seq<usize>,
    diet: Diet,
    waters: Seq<Seq<Prey>>,
    draws: Seq<u32>,
    reef: int,
)
    requires
        within(handles, waters.len()),
        0 <= reef < waters.len(),
    ensures
        hunt_outcome(handles, diet, waters, draws).waters[reef].len() + (if hunt_outcome(
            handles,
            diet,
            waters,
            draws,
        ).catch matches Some(catch) && catch.reef == reef {
            1nat
        } else {
            0nat
        }) == waters[reef].len(),
{
    let outcome = hunt_outcome(handles, diet, waters, draws);
    hunt_keeps_prey_in_place(handles, diet, waters, draws, reef);
    lemma_tally_len(outcome.waters[reef]);
    lemma_tally_len(waters[reef]);
}

/// A search moves one prey at most, from its reef into the crab's grip: the
/// reef it came from holds what it held less that prey, whatever the new
/// order, and every other reef is exactly as it was.
pub proof fn search_moves_one_prey(handles: Seq<usize>, waters: Seq<Seq<Prey>>, diet: Diet)
    requires
        within(handles, waters.len()),
    ensures
        search(handles, waters, diet) matches Some(find) ==> {
            let origin = handles[find.position] as int;
            &&& waters[origin].to_multiset() == find.waters[origin].to_multiset().insert(
                find.prey,
            )
            &&& forall|reef: int|
                0 <= reef < waters.len() && reef != origin ==> #[trigger] find.waters[reef]
                    == waters[reef]
        },
{
    lemma_search(handles, waters, diet);
    lemma_first_stocked_from(handles, waters, diet, 0);
    if let Some(find) = search(handles, waters, diet) {
        let origin = handles[find.position] as int;
        let reef = waters[origin];
        lemma_first_match_from(reef, diet, 0);
        let index = first_match(reef, diet);
        let front = reef.subrange(0, index);
        let back = reef.subrange(index + 1, reef.len() as int);
        to_multiset_remove(reef, index);
        lemma_seq_union_to_multiset_commutative(front, back);
        to_multiset_contains(reef, reef[index]);
    }
}

/// The release leaves alone a reef that no escaped prey was taken from.
proof fn lemma_released_all_elsewhere(waters: Seq<Seq<Prey>>, escaped: Seq<(Prey, int)>, reef: int)
    requires
        fits(escaped, waters.len()),
        0 <= reef < waters.len(),
        forall|i: int| 0 <= i < escaped.len() ==> (#[trigger] escaped[i]).1 != reef,
    ensures
        released_all(waters, escaped)[reef] == waters[reef],
    decreases escaped.len(),
{
    if escaped.len() > 0 {
        let next = released(waters, escaped[0].1, escaped[0].0);
        assert forall|i: int| 0 <= i < escaped.drop_first().len() implies 0 <= (
        #[trigger] escaped.drop_first()[i]).1 < next.len() && escaped.drop_first()[i].1
            != reef by {}
        lemma_released_all_elsewhere(next, escaped.drop_first(), reef);
    }
}

/// From any moment of a hunt on, a reef that the crab does not forage, and
/// that no escaped prey was taken from, stays as it is.
proof fn lemma_hunt_from_elsewhere(
    handles: Seq<usize>,
    diet: Diet,
    waters: Seq<Seq<Prey>>,
    escaped: Seq<(Prey, int)>,
    draws: Seq<u32>,
    reef: int,
)
    requires
        within(handles, waters.len()),
        fits(escaped, waters.len()),
        0 <= reef < waters.len(),
        forall|i: int| 0 <= i < handles.len() ==> (#[trigger] handles[i]) != reef,
        forall|i: int| 0 <= i < escaped.len() ==> (#[trigger] escaped[i]).1 != reef,
    ensures
        hunt_from(handles, diet, waters, escaped, draws).waters[reef] == waters[reef],
    decreases total_population(waters),
{
    lemma_search(handles, waters, diet);
    match search(handles, waters, diet) {
        None => {
            lemma_released_all_elsewhere(waters, escaped, reef);
        },
        Some(find) => {
            if find.prey.escapes_on(next_draw(draws)) {
                let held = escaped.push((find.prey.after_attempt(), handles[find.position] as int));
                lemma_hunt_from_elsewhere(
                    handles,
                    diet,
                    find.waters,
                    held,
                    later_draws(draws),
                    reef,
                );
            } else {
                lemma_released_all_elsewhere(find.waters, escaped, reef);
            }
        },
    }
}

/// A hunt touches only the reefs that the crab forages: every other reef
/// is after the hunt exactly as it was before.
pub proof fn hunt_leaves_other_reefs_alone(
    handles: Seq<usize>,
    diet: Diet,
    waters: Seq<Seq<Prey>>,
    draws: Seq<u32>,
    reef: int,
)
    requires
        within(handles, waters.len()),
        0 <= reef < waters.len(),
        forall|i: int| 0 <= i < handles.len() ==> (#[trigger] handles[i]) != reef,
    ensures
        hunt_outcome(handles, diet, waters, draws).waters[reef] == waters[reef],
{
    lemma_hunt_from_elsewhere(handles, diet, waters, Seq::empty(), draws, reef);
}

/// One hunt among several: the reefs that the hunting crab forages, what
/// it eats, and the draws made for its attempts.
pub struct Outing {
    pub handles: Seq<usize>,
    pub diet: Diet,
    pub draws: Seq<u32>,
}

/// Every hunt is that of a crab whose reefs are among the first `count`.
pub open spec fn feasible(outings: Seq<Outing>, count: nat) -> bool {
    forall|i: int| 0 <= i < outings.len() ==> within((#[trigger] outings[i]).handles, count)
}

/// The arena after the hunts of `outings`, one after another.
pub open spec fn after_outings(waters: Seq<Seq<Prey>>, outings: Seq<Outing>) -> Seq<Seq<Prey>>
    decreases outings.len(),
{
    if outings.len() == 0 {
        waters
    } else {
        let first = hunt_outcome(outings[0].handles, outings[0].diet, waters, outings[0].draws);
        after_outings(first.waters, outings.drop_first())
    }
}

/// How many of the hunts of `outings`, one after another, catch a prey.
pub open spec fn catches_of(waters: Seq<Seq<Prey>>, outings: Seq<Outing>) -> nat
    decreases outings.len(),
{
    if outings.len() == 0 {
        0
    } else {
        let first = hunt_outcome(outings[0].handles, outings[0].diet, waters, outings[0].draws);
        catches(first) + catches_of(first.waters, outings.drop_first())
    }
}

/// Any sequence of hunts, by any crabs, conserves prey: what the reefs hold
/// in the end and what was caught add up to what the reefs held at first.
pub proof fn hunts_conserve_population(waters: Seq<Seq<Prey>>, outings: Seq<Outing>)
    requires
        feasible(outings, waters.len()),
    ensures
        after_outings(waters, outings).len() == waters.len(),
        total_population(after_outings(waters, outings)) + catches_of(waters, outings)
            == total_population(waters),
    decreases outings.len(),
{
    if outings.len() > 0 {
        let first = hunt_outcome(outings[0].handles, outings[0].diet, waters, outings[0].draws);
        hunt_conserves_population(outings[0].handles, outings[0].diet, waters, outings[0].draws);
        assert forall|i: int| 0 <= i < outings.drop_first().len() implies within(
            (#[trigger] outings.drop_first()[i]).handles,
            first.waters.len(),
        ) by {}
        hunts_conserve_population(first.waters, outings.drop_first());
    }
}

} // verus!
